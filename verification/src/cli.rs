//! What the command line asks for.
use crate::number::parse_u64;
use crate::text::{cat3, owned, strip_suffix, trim};
use crate::time::Duration;
use crate::{number, text, time};
use vstd::prelude::*;

verus! {

/// The message for a duration that is not written as one.
pub open spec fn invalid_duration(input: Seq<char>) -> Seq<char> {
    "invalid duration '"@ + input
        + "'; use a positive integer with optional ms, s, or m suffix"@
}

/// The positive number that `value` writes, or why it is none; `input` is the whole duration.
pub open spec fn positive_number(value: Seq<char>, input: Seq<char>) -> Result<nat, Seq<char>> {
    match number::parse_unsigned(value, u64::MAX as nat) {
        None => Err(invalid_duration(input)),
        Some(number) => if number == 0 {
            Err("duration must be greater than zero"@)
        } else {
            Ok(number)
        },
    }
}

/// `s` without its last `count` characters.
pub open spec fn without_last(s: Seq<char>, count: int) -> Seq<char> {
    s.take(s.len() - count)
}

/// The nanoseconds of the duration that `text` writes, or why it writes none.
pub open spec fn duration_value(written: Seq<char>) -> Result<nat, Seq<char>> {
    let input = text::trimmed(written);
    if input.len() == 0 {
        Err("duration cannot be empty"@)
    } else if text::ends(input, "ms"@) {
        match positive_number(without_last(input, "ms"@.len() as int), input) {
            Ok(number) => Ok(time::millis(number)),
            Err(error) => Err(error),
        }
    } else if text::ends(input, "s"@) {
        match positive_number(without_last(input, "s"@.len() as int), input) {
            Ok(number) => Ok(time::seconds(number)),
            Err(error) => Err(error),
        }
    } else if text::ends(input, "m"@) {
        match positive_number(without_last(input, "m"@.len() as int), input) {
            Ok(number) => if number * 60 > u64::MAX {
                Err("duration is too large"@)
            } else {
                Ok(time::seconds(number * 60))
            },
            Err(error) => Err(error),
        }
    } else {
        match positive_number(input, input) {
            Ok(number) => Ok(time::seconds(number)),
            Err(error) => Err(error),
        }
    }
}

/// What a duration parser returned, over contents.
pub open spec fn duration_result(result: Result<Duration, String>) -> Result<nat, Seq<char>> {
    match result {
        Ok(duration) => Ok(duration@),
        Err(message) => Err(message@),
    }
}

/// Reads a duration: a positive integer with the suffix `ms`, `s` or `m`, in seconds without one.
pub fn parse_duration(input: &str) -> (out: Result<Duration, String>)
    ensures
        duration_result(out) == duration_value(input@),
{
    let input = trim(input);
    let input = input.as_str();
    if input.is_empty() {
        return Err(owned("duration cannot be empty"));
    }
    if let Some(number) = strip_suffix(input, "ms") {
        return match parse_positive_u64(number.as_str(), input) {
            Ok(number) => Ok(Duration::from_millis(number)),
            Err(error) => Err(error),
        };
    }
    if let Some(number) = strip_suffix(input, "s") {
        return match parse_positive_u64(number.as_str(), input) {
            Ok(number) => Ok(Duration::from_secs(number)),
            Err(error) => Err(error),
        };
    }
    if let Some(number) = strip_suffix(input, "m") {
        return match parse_positive_u64(number.as_str(), input) {
            Ok(number) => match number.checked_mul(60) {
                Some(number) => Ok(Duration::from_secs(number)),
                None => Err(owned("duration is too large")),
            },
            Err(error) => Err(error),
        };
    }
    match parse_positive_u64(input, input) {
        Ok(number) => Ok(Duration::from_secs(number)),
        Err(error) => Err(error),
    }
}

/// Reads the positive number of a duration; `original` is the whole duration.
pub fn parse_positive_u64(value: &str, original: &str) -> (out: Result<u64, String>)
    ensures
        match out {
            Ok(number) => positive_number(value@, original@) == Ok::<nat, Seq<char>>(
                number as nat,
            ),
            Err(message) => positive_number(value@, original@) == Err::<nat, Seq<char>>(message@),
        },
{
    match parse_u64(value) {
        None => Err(
            cat3(
                "invalid duration '",
                original,
                "'; use a positive integer with optional ms, s, or m suffix",
            ),
        ),
        Some(number) => if number == 0 {
            Err(owned("duration must be greater than zero"))
        } else {
            Ok(number)
        },
    }
}

/// A duration that was read is never zero.
pub proof fn durations_are_positive(written: Seq<char>)
    ensures
        duration_value(written) matches Ok(nanos) ==> nanos > 0,
{
}

/// Digits followed by a unit that ends in a letter are trimmed to themselves.
proof fn lemma_number_with_unit(digits: Seq<char>, unit: Seq<char>)
    requires
        digits.len() > 0,
        number::all_digits(digits),
        unit.len() > 0,
        !text::is_white(unit.last()),
    ensures
        text::trimmed(digits + unit) == digits + unit,
        (digits + unit).take(digits.len() as int) == digits,
        (digits + unit).skip(digits.len() as int) == unit,
{
    let s = digits + unit;
    assert(text::is_digit(digits[0]));
    assert(s[0] == digits[0]);
    assert(s[s.len() - 1] == unit.last());
    text::lemma_trim(s, text::white_chars(), 0, s.len() as int);
    assert(s.subrange(0, s.len() as int) =~= s);
    assert(s.take(digits.len() as int) =~= digits);
    assert(s.skip(digits.len() as int) =~= unit);
}

/// A number with a unit is a duration of as many of these units.
proof fn lemma_value_with_unit(count: nat, unit: Seq<char>)
    requires
        0 < count <= u64::MAX,
        unit == "ms"@ || unit == "s"@ || unit == "m"@,
    ensures
        duration_value(number::decimal_seq(count) + unit) == if unit == "ms"@ {
            Ok::<nat, Seq<char>>(time::millis(count))
        } else if unit == "s"@ {
            Ok::<nat, Seq<char>>(time::seconds(count))
        } else if count * 60 > u64::MAX {
            Err::<nat, Seq<char>>("duration is too large"@)
        } else {
            Ok::<nat, Seq<char>>(time::seconds(count * 60))
        },
{
    reveal_strlit("ms");
    reveal_strlit("s");
    reveal_strlit("m");
    let digits = number::decimal_seq(count);
    let written = digits + unit;
    number::decimal_form_reads_back(count);
    number::parse_of_decimal(count, u64::MAX as nat);
    lemma_number_with_unit(digits, unit);
    assert(without_last(written, unit.len() as int) == digits);
    let end = written.len() as int;
    assert(written.subrange(end - unit.len(), end) =~= unit);
    assert(text::ends(written, unit));
    assert(written[end - 1] == unit.last());
    if text::ends(written, "s"@) {
        assert(written.subrange(end - 1, end)[0] == 's');
    }
    if text::ends(written, "ms"@) {
        assert(written.subrange(end - 2, end)[0] == 'm');
        assert(written.subrange(end - 2, end)[1] == 's');
        assert(text::is_digit(digits[digits.len() - 1]));
        assert(unit != "ms"@ ==> written[end - 2] == digits.last());
    }
}

/// A second is a thousand milliseconds and a minute is sixty seconds, a number without a unit is
/// in seconds, and minutes are refused exactly where their seconds are too many to count.
pub proof fn duration_units_agree(count: nat)
    requires
        0 < count <= u64::MAX,
    ensures
        ({
            let digits = number::decimal_seq(count);
            let seconds = duration_value(digits + "s"@);
            let minutes = duration_value(digits + "m"@);
            &&& duration_value(digits) == seconds
            &&& count * 1000 <= u64::MAX ==> seconds == duration_value(
                number::decimal_seq(count * 1000) + "ms"@,
            )
            &&& count * 60 <= u64::MAX ==> minutes == duration_value(
                number::decimal_seq(count * 60) + "s"@,
            )
            &&& count * 60 > u64::MAX ==> minutes == Err::<nat, Seq<char>>(
                "duration is too large"@,
            )
        }),
{
    reveal_strlit("ms");
    reveal_strlit("s");
    reveal_strlit("m");
    let digits = number::decimal_seq(count);
    lemma_value_with_unit(count, "s"@);
    lemma_value_with_unit(count, "m"@);
    if count * 1000 <= u64::MAX {
        lemma_value_with_unit(count * 1000, "ms"@);
    }
    if count * 60 <= u64::MAX {
        lemma_value_with_unit(count * 60, "s"@);
    }
    number::decimal_form_reads_back(count);
    number::parse_of_decimal(count, u64::MAX as nat);
    let last = digits.len() - 1;
    assert(text::is_digit(digits[0]) && text::is_digit(digits[last]));
    text::lemma_trim(digits, text::white_chars(), 0, digits.len() as int);
    assert(digits.subrange(0, digits.len() as int) =~= digits);
    if text::ends(digits, "s"@) {
        assert(digits.subrange(last, last + 1)[0] == 's');
    }
    if text::ends(digits, "m"@) {
        assert(digits.subrange(last, last + 1)[0] == 'm');
    }
    if text::ends(digits, "ms"@) {
        assert(digits.subrange(last - 1, last + 1)[1] == 's');
    }
}

/// A span that is a whole number of milliseconds below one second, or a whole number of seconds,
/// reads back as itself after it was written.
pub proof fn written_durations_read_back(nanos: nat)
    requires
        0 < nanos,
        nanos < time::seconds(1) ==> nanos % time::millis(1) == 0,
        nanos >= time::seconds(1) ==> nanos % time::seconds(1) == 0,
        nanos <= time::seconds(u64::MAX as nat),
    ensures
        duration_value(time::duration_text(nanos)) == Ok::<nat, Seq<char>>(nanos),
{
    reveal_strlit("ms");
    reveal_strlit("s");
    let count = nanos / 1_000_000;
    let written = time::duration_text(nanos);
    if count < 1000 {
        let digits = number::decimal_seq(count);
        number::decimal_form_reads_back(count);
        lemma_number_with_unit(digits, "ms"@);
        assert(written.subrange(written.len() - 2, written.len() as int) =~= "ms"@);
        assert(text::ends(written, "ms"@));
        number::parse_of_decimal(count, u64::MAX as nat);
        assert(without_last(written, 2) == digits);
        assert(nanos == time::millis(count));
    } else {
        let digits = number::decimal_seq(count / 1000);
        let whole = nanos / 1_000_000_000;
        assert(nanos == whole * 1_000_000_000);
        assert(count == whole * 1000);
        number::decimal_form_reads_back(count / 1000);
        lemma_number_with_unit(digits, "s"@);
        assert(written.subrange(written.len() - 1, written.len() as int) =~= "s"@);
        assert(text::ends(written, "s"@));
        assert(!text::ends(written, "ms"@)) by {
            if text::occurs_at(written, "ms"@, written.len() - 2) {
                assert(written.subrange(written.len() - 2, written.len() as int)[0] == 'm');
                assert(written[written.len() - 2] == digits.last());
                assert(text::is_digit(digits[digits.len() - 1]));
            }
        }
        number::parse_of_decimal(count / 1000, u64::MAX as nat);
        assert(without_last(written, 1) == digits);
        assert(nanos == time::seconds(count / 1000));
    }
}

// ---------------------------------------------------------------------------
// Commands

/// What is asked for on the command line.
#[derive(Debug)]
pub struct Cli {
    pub command: Commands,
    pub verbose: bool,
}

#[derive(Debug)]
pub enum Commands {
    /// Verify a bundle.
    VerifyBundle(VerifyBundleArgs),
    /// Verify an app of a local repository.
    VerifyRepo(VerifyRepoArgs),
    /// Check what is installed on the machine.
    Doctor(DoctorArgs),
    /// Capture screenshots of the app of a bundle.
    ScreenshotBundle(ScreenshotBundleArgs),
    /// Capture screenshots of an app of a local repository.
    ScreenshotRepo(ScreenshotRepoArgs),
}

#[derive(Debug)]
pub struct VerifyBundleArgs {
    pub bundle: String,
    pub common: VerifyCommonArgs,
}

#[derive(Debug)]
pub struct VerifyRepoArgs {
    pub repo: String,
    pub app_ref: String,
    pub common: VerifyCommonArgs,
}

#[derive(Debug, Clone)]
pub struct VerifyCommonArgs {
    pub output: String,
    pub force: bool,
    pub window_timeout: Duration,
    pub display_timeout: Duration,
    pub screenshot_timeout: Duration,
    pub overall_timeout: Duration,
    pub allow_network_remotes: bool,
    pub screenshot_name: String,
    pub screenshot_after_click: Vec<String>,
}

#[derive(Debug)]
pub struct DoctorArgs {
    pub desktop: Option<DoctorDesktop>,
}

/// A desktop that can be checked.
#[derive(Debug, Clone, Copy, PartialEq, Eq, Structural)]
pub enum DoctorDesktop {
    Gnome,
}

#[derive(Debug)]
pub struct ScreenshotBundleArgs {
    pub bundle: String,
    pub common: ScreenshotArgs,
}

#[derive(Debug)]
pub struct ScreenshotRepoArgs {
    pub repo: String,
    pub app_ref: String,
    pub common: ScreenshotArgs,
}

#[derive(Debug, Clone)]
pub struct ScreenshotArgs {
    pub recipe: String,
    pub output: String,
    pub force: bool,
    pub window_timeout: Duration,
    pub display_timeout: Duration,
    pub screenshot_timeout: Duration,
    pub overall_timeout: Duration,
    pub allow_network_remotes: bool,
}

/// What to do for a command.
#[derive(Debug)]
pub enum Job {
    /// Check the machine for the verification of apps.
    Doctor,
    /// Check the machine for the capture of screenshots.
    ScreenshotDoctor,
    VerifyBundle(VerifyBundleArgs),
    VerifyRepo(VerifyRepoArgs),
    ScreenshotBundle(ScreenshotBundleArgs),
    ScreenshotRepo(ScreenshotRepoArgs),
}

/// What to do for what is asked on the command line.
pub fn run(cli: Cli) -> (out: Job)
    ensures
        out == match cli.command {
            Commands::Doctor(args) => if args.desktop is Some {
                Job::ScreenshotDoctor
            } else {
                Job::Doctor
            },
            Commands::VerifyBundle(args) => Job::VerifyBundle(args),
            Commands::VerifyRepo(args) => Job::VerifyRepo(args),
            Commands::ScreenshotBundle(args) => Job::ScreenshotBundle(args),
            Commands::ScreenshotRepo(args) => Job::ScreenshotRepo(args),
        },
{
    match cli.command {
        Commands::Doctor(args) => if args.desktop.is_some() {
            Job::ScreenshotDoctor
        } else {
            Job::Doctor
        },
        Commands::VerifyBundle(args) => Job::VerifyBundle(args),
        Commands::VerifyRepo(args) => Job::VerifyRepo(args),
        Commands::ScreenshotBundle(args) => Job::ScreenshotBundle(args),
        Commands::ScreenshotRepo(args) => Job::ScreenshotRepo(args),
    }
}

/// The level of the messages that are shown where the environment sets none.
pub fn default_level(verbose: bool) -> (out: &'static str)
    ensures
        out@ == if verbose {
            "debug"@
        } else {
            "warn"@
        },
{
    if verbose {
        "debug"
    } else {
        "warn"
    }
}

} // verus!
