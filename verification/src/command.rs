//! Commands that a run starts: what is logged of them and when they are given up.
use crate::text::{blank, cat3, cat4, join, lossy, owned, trim_end};
use crate::time::{format_duration, Duration};
use crate::{text, time};
use vstd::prelude::*;

verus! {

/// What a command did.
#[derive(Debug, Clone)]
pub struct CommandOutput {
    pub success: bool,
    /// How the system tells of its end.
    pub status: String,
    pub stdout: String,
    pub stderr: String,
}

/// The line that tells of a command before it runs.
pub open spec fn command_line(program: Seq<char>, args: Seq<Seq<char>>) -> Seq<char> {
    "$ "@ + program + " "@ + text::join_seq(args, " "@)
}

/// The line that tells of a command before it runs.
pub fn log_command(program: &str, args: &[String]) -> (out: String)
    ensures
        out@ == command_line(program@, text::views(args@)),
{
    cat4("$ ", program, " ", join(args, " ").as_str())
}

/// The entry for what a command wrote on one of its streams, unless it wrote only white space.
pub open spec fn stream_entry(
    program: Seq<char>,
    stream: Seq<char>,
    written: Seq<char>,
) -> Seq<Seq<char>> {
    if text::trimmed(written).len() == 0 {
        Seq::empty()
    } else {
        seq![program + stream + text::trimmed_end(written)]
    }
}

/// What is logged of a command that ended.
pub open spec fn status_entries(
    program: Seq<char>,
    status: Seq<char>,
    stdout: Seq<char>,
    stderr: Seq<char>,
) -> Seq<Seq<char>> {
    seq![program + " exited with "@ + status] + stream_entry(program, " stdout:\n"@, stdout)
        + stream_entry(program, " stderr:\n"@, stderr)
}

/// What is logged of a command that was given up.
pub open spec fn timeout_entries(
    program: Seq<char>,
    timeout: nat,
    stdout: Seq<char>,
    stderr: Seq<char>,
) -> Seq<Seq<char>> {
    seq![program + " timed out after "@ + time::duration_text(timeout)] + stream_entry(
        program,
        " stdout before timeout:\n"@,
        stdout,
    ) + stream_entry(program, " stderr before timeout:\n"@, stderr)
}

fn add_stream_entry(entries: &mut Vec<String>, program: &str, stream: &str, written: &str)
    ensures
        text::views(final(entries)@) == text::views(old(entries)@) + stream_entry(
            program@,
            stream@,
            written@,
        ),
{
    if blank(written) {
        assert(text::views(entries@) + Seq::empty() =~= text::views(entries@));
    } else {
        let entry = cat3(program, stream, trim_end(written).as_str());
        proof {
            text::lemma_views_push(entries@, entry);
            assert(text::views(entries@).push(entry@) =~= text::views(entries@) + seq![entry@]);
        }
        entries.push(entry);
    }
}

/// What is logged of a command that ended.
pub fn log_status(program: &str, output: &CommandOutput) -> (out: Vec<String>)
    ensures
        text::views(out@) == status_entries(
            program@,
            output.status@,
            output.stdout@,
            output.stderr@,
        ),
{
    let first = cat3(program, " exited with ", output.status.as_str());
    let ghost told = first@;
    let mut out: Vec<String> = vec![first];
    assert(text::views(out@) =~= seq![told]);
    add_stream_entry(&mut out, program, " stdout:\n", output.stdout.as_str());
    add_stream_entry(&mut out, program, " stderr:\n", output.stderr.as_str());
    out
}

/// What is logged of a command that was given up.
pub fn log_timeout(program: &str, timeout: Duration, stdout: &str, stderr: &str) -> (out: Vec<
    String,
>)
    ensures
        text::views(out@) == timeout_entries(program@, timeout@, stdout@, stderr@),
{
    let first = cat3(program, " timed out after ", format_duration(timeout).as_str());
    let ghost told = first@;
    let mut out: Vec<String> = vec![first];
    assert(text::views(out@) =~= seq![told]);
    add_stream_entry(&mut out, program, " stdout before timeout:\n", stdout);
    add_stream_entry(&mut out, program, " stderr before timeout:\n", stderr);
    out
}

/// Why a command that was given up has no output.
pub open spec fn timeout_message(program: Seq<char>, timeout: nat) -> Seq<char> {
    "command '"@ + program + "' timed out after "@ + time::duration_text(timeout)
}

/// Why a command that was given up has no output.
pub fn timeout_error(program: &str, timeout: Duration) -> (out: String)
    ensures
        out@ == timeout_message(program@, timeout@),
{
    cat4("command '", program, "' timed out after ", format_duration(timeout).as_str())
}

/// What to do next about a command that runs under a timeout.
#[derive(Debug, Clone, Copy, PartialEq, Eq, Structural)]
pub enum RunPoll {
    /// It ended: read and log what it wrote.
    Finished,
    /// The run was cancelled: end it.
    Cancelled,
    /// Its time is up: end it, and log what it wrote so far.
    TimedOut,
    /// It runs on: look again after a while.
    Wait,
}

/// What to do next about a command: its end counts even where its time is up or the run was
/// cancelled.
pub fn poll_run(exited: bool, cancelled: bool, elapsed: Duration, timeout: Duration) -> (out:
    RunPoll)
    ensures
        out == if exited {
            RunPoll::Finished
        } else if cancelled {
            RunPoll::Cancelled
        } else if elapsed@ >= timeout@ {
            RunPoll::TimedOut
        } else {
            RunPoll::Wait
        },
{
    if exited {
        RunPoll::Finished
    } else if cancelled {
        RunPoll::Cancelled
    } else if elapsed.nanos >= timeout.nanos {
        RunPoll::TimedOut
    } else {
        RunPoll::Wait
    }
}

/// What to log and to hand back of a command that ended, from the bytes that it wrote.
pub fn finish_run(program: &str, success: bool, status: &str, stdout: &[u8], stderr: &[u8]) -> (out:
    (Vec<String>, CommandOutput))
    ensures
        text::views(out.0@) == status_entries(
            program@,
            status@,
            text::utf8_lossy(stdout@),
            text::utf8_lossy(stderr@),
        ),
        out.1.success == success,
        out.1.status@ == status@,
        out.1.stdout@ == text::utf8_lossy(stdout@),
        out.1.stderr@ == text::utf8_lossy(stderr@),
{
    let output = CommandOutput {
        success,
        status: owned(status),
        stdout: lossy(stdout),
        stderr: lossy(stderr),
    };
    (log_status(program, &output), output)
}

/// What to log of a command that was given up, from the bytes that it wrote so far, and the error
/// to hand back.
pub fn give_up_run(program: &str, timeout: Duration, stdout: &[u8], stderr: &[u8]) -> (out: (
    Vec<String>,
    String,
))
    ensures
        text::views(out.0@) == timeout_entries(
            program@,
            timeout@,
            text::utf8_lossy(stdout@),
            text::utf8_lossy(stderr@),
        ),
        out.1@ == timeout_message(program@, timeout@),
{
    (
        log_timeout(program, timeout, lossy(stdout).as_str(), lossy(stderr).as_str()),
        timeout_error(program, timeout),
    )
}

/// Whether a file that should hold something does: the complaint where it does not.
pub fn ensure_file_nonempty(path: &str, length: u64) -> (out: Result<(), String>)
    ensures
        length > 0 ==> out is Ok,
        length == 0 ==> (out matches Err(message) && message@ == "'"@ + path@ + "' is empty"@),
{
    if length == 0 {
        Err(cat3("'", path, "' is empty"))
    } else {
        Ok(())
    }
}

} // verus!
