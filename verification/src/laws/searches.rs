//! Searches for the place to click: the whole course of one, tool by tool.
use crate::capture::Search;
use crate::ocr::ComponentBox;
use crate::process::ToolOutcome;
use crate::result::FailureReason;
use crate::{capture, ocr, process, text};
use vstd::prelude::*;

verus! {

/// What a tool that succeeded wrote.
pub open spec fn wrote(outcome: ToolOutcome, stdout: Seq<char>, stderr: Seq<char>) -> bool {
    outcome matches ToolOutcome::Finished { code: Some(0), stdout: out, stderr: err } && {
        &&& text::utf8_lossy(out@) == stdout
        &&& text::utf8_lossy(err@) == stderr
    }
}

/// Whether the words of a label follow one another among the words that were read.
pub open spec fn reads(read: Seq<Seq<char>>, label: Seq<Seq<char>>) -> bool {
    exists|at: int|
        {
            &&& 0 <= at
            &&& #[trigger] (at + label.len()) <= read.len()
            &&& forall|k: int| 0 <= k < label.len() ==> #[trigger] read[at + k] == label[k]
        }
}

/// Where a search is after its table and its report of components.
pub open spec fn after_two(wanted: Seq<char>, table: ToolOutcome, report: ToolOutcome) -> Search {
    capture::search_step(capture::search_step(Search::Table, wanted, table), wanted, report)
}

/// Where a search is after all four of its tools.
pub open spec fn after_four(
    wanted: Seq<char>,
    table: ToolOutcome,
    report: ToolOutcome,
    cut: ToolOutcome,
    label: ToolOutcome,
) -> Search {
    capture::search_step(
        capture::search_step(after_two(wanted, table, report), wanted, cut),
        wanted,
        label,
    )
}

/// How a search ends that has only the places of the words.
pub open spec fn ends_with_words(end: Search, places: Seq<(int, int)>, wanted: Seq<char>) -> bool {
    &&& places.len() == 0 ==> end == (Search::Found { target: None, by_button: false })
    &&& places.len() == 1 ==> end == (Search::Found { target: Some(places[0]), by_button: false })
    &&& places.len() > 1 ==> end == (Search::Failed {
        reason: FailureReason::ScreenshotFailed,
        message: "click text '"@ + wanted
            + "' matched multiple OCR locations and no matching primary action button was found"@,
    })
}

proof fn lemma_reads(read: Seq<Seq<char>>, label: Seq<Seq<char>>)
    ensures
        text::occurs(read, label) == reads(read, label),
{
    if text::occurs(read, label) {
        let i = choose|i: int| text::occurs_at(read, label, i);
        let part = read.subrange(i, i + label.len());
        assert forall|k: int| 0 <= k < label.len() implies #[trigger] read[i + k] == label[k] by {
            assert(part[k] == read[i + k]);
        }
        assert(i + label.len() <= read.len());
    }
    if reads(read, label) {
        let at = choose|at: int|
            {
                &&& 0 <= at
                &&& #[trigger] (at + label.len()) <= read.len()
                &&& forall|k: int| 0 <= k < label.len() ==> #[trigger] read[at + k] == label[k]
            };
        let part = read.subrange(at, at + label.len());
        assert forall|k: int| 0 <= k < label.len() implies part[k] == label[k] by {
            assert(read[at + k] == label[k]);
        }
        assert(part =~= label);
        assert(text::occurs_at(read, label, at));
    }
}

/// Where the report has one button, and the text that is read on its picture holds the words of the
/// label in a row, the middle of the button is clicked, wherever else the words stand. Where it does
/// not hold them, the words alone decide.
pub proof fn a_button_with_the_label_is_clicked(
    wanted: Seq<char>,
    table: ToolOutcome,
    report: ToolOutcome,
    cut: ToolOutcome,
    label: ToolOutcome,
    shown: Seq<char>,
    seen: (Seq<char>, Seq<char>),
    read: Seq<char>,
    button: ComponentBox,
)
    requires
        wrote(table, shown, text::utf8_lossy(table->stderr@)),
        wrote(report, seen.0, seen.1),
        wrote(cut, text::utf8_lossy(cut->stdout@), text::utf8_lossy(cut->stderr@)),
        wrote(label, read, text::utf8_lossy(label->stderr@)),
        ocr::centers_fit(shown, wanted),
        ocr::areas_fit(text::lines_of(seen.0 + seq!['\n'] + seen.1)),
        ocr::reported_buttons(text::lines_of(seen.0 + seq!['\n'] + seen.1)) == seq![button],
        button.width >= 0,
        button.height >= 0,
        button.x + button.width <= i32::MAX,
        button.y + button.height <= i32::MAX,
    ensures
        ocr::normal_words(wanted).len() > 0 && reads(
            ocr::normal_words(read),
            ocr::normal_words(wanted),
        ) ==> after_four(wanted, table, report, cut, label) == (Search::Found {
            target: Some(
                (button.x + button.width as int / 2, button.y + button.height as int / 2),
            ),
            by_button: true,
        }),
        ocr::normal_words(wanted).len() == 0 || !reads(
            ocr::normal_words(read),
            ocr::normal_words(wanted),
        ) ==> ends_with_words(
            after_four(wanted, table, report, cut, label),
            ocr::text_centers(ocr::table_words(shown), ocr::normal_words(wanted)),
            wanted,
        ),
        after_two(wanted, table, report) matches Search::Crop { button: cropped, .. } && cropped
            == button,
{
    reveal_strlit("\n");
    assert("\n"@ =~= seq!['\n']);
    lemma_reads(ocr::normal_words(read), ocr::normal_words(wanted));
    assert(capture::reported(report) =~= seen.0 + seq!['\n'] + seen.1);
    assert(button == ocr::reported_buttons(text::lines_of(seen.0 + seq!['\n'] + seen.1))[0]);
}

/// Where the report has no button, or several, the words alone decide: their one place is clicked,
/// and where they stand at several places the search fails.
pub proof fn words_decide_without_a_button(
    wanted: Seq<char>,
    table: ToolOutcome,
    report: ToolOutcome,
    shown: Seq<char>,
    seen: (Seq<char>, Seq<char>),
)
    requires
        wrote(table, shown, text::utf8_lossy(table->stderr@)),
        wrote(report, seen.0, seen.1),
        ocr::centers_fit(shown, wanted),
        ocr::areas_fit(text::lines_of(seen.0 + seq!['\n'] + seen.1)),
        ocr::reported_buttons(text::lines_of(seen.0 + seq!['\n'] + seen.1)).len() != 1,
    ensures
        ends_with_words(
            after_two(wanted, table, report),
            ocr::text_centers(ocr::table_words(shown), ocr::normal_words(wanted)),
            wanted,
        ),
{
    reveal_strlit("\n");
    assert("\n"@ =~= seq!['\n']);
    assert(capture::reported(report) =~= seen.0 + seq!['\n'] + seen.1);
}

/// How a tool can let down the one who called it.
pub open spec fn lets_down(
    outcome: ToolOutcome,
    tool: Seq<char>,
    failed: Seq<char>,
    not_run: Seq<char>,
    reason: FailureReason,
    message: Seq<char>,
) -> bool {
    match outcome {
        ToolOutcome::Finished { code, stdout, stderr } => {
            &&& code != Some(0i32)
            &&& reason == FailureReason::ScreenshotFailed
            &&& message == failed + ": "@ + text::trimmed(text::utf8_lossy(stderr@))
        },
        ToolOutcome::Missing => {
            &&& reason == FailureReason::DependencyFailed
            &&& message == "missing required tool: "@ + tool
        },
        ToolOutcome::Broken { error } => {
            &&& reason == FailureReason::ScreenshotFailed
            &&& message == not_run + ": "@ + error@
        },
    }
}

/// A tool's output is there exactly when the tool ended with code 0. Else it is told whether the
/// tool is missing, could not be run, or complained, and what it complained of.
pub proof fn tools_let_down_in_three_ways(
    outcome: ToolOutcome,
    tool: Seq<char>,
    failed: Seq<char>,
    not_run: Seq<char>,
)
    ensures
        process::tool_failure(outcome, tool, failed, not_run) is None <==> (
        outcome matches ToolOutcome::Finished { code: Some(0), .. }),
        process::tool_failure(outcome, tool, failed, not_run) matches Some(told) ==> lets_down(
            outcome,
            tool,
            failed,
            not_run,
            told.0,
            told.1,
        ),
{
}

/// A tool that lets down a search ends it, at each of its four stages, with what is told of it.
pub proof fn searches_fail_with_their_tools(
    wanted: Seq<char>,
    outcome: ToolOutcome,
    places: Seq<(int, int)>,
    button: ComponentBox,
    reason: FailureReason,
    message: Seq<char>,
)
    ensures
        lets_down(
            outcome,
            "tesseract"@,
            "failed to locate click text with tesseract"@,
            "failed to run tesseract for click text OCR"@,
            reason,
            message,
        ) ==> capture::search_step(Search::Table, wanted, outcome) == (Search::Failed {
            reason,
            message,
        }),
        lets_down(
            outcome,
            "convert"@,
            "failed to locate primary action button with ImageMagick"@,
            "failed to run ImageMagick convert for button detection"@,
            reason,
            message,
        ) ==> capture::search_step(Search::Components { matches: places }, wanted, outcome) == (
        Search::Failed { reason, message }),
        lets_down(
            outcome,
            "convert"@,
            "failed to crop primary action button with ImageMagick"@,
            "failed to run ImageMagick convert for button crop"@,
            reason,
            message,
        ) ==> capture::search_step(Search::Crop { matches: places, button }, wanted, outcome) == (
        Search::Failed { reason, message }),
        lets_down(
            outcome,
            "tesseract"@,
            "failed to OCR primary action button crop with tesseract"@,
            "failed to run tesseract for button crop OCR"@,
            reason,
            message,
        ) ==> capture::search_step(Search::Label { matches: places, button }, wanted, outcome) == (
        Search::Failed { reason, message }),
{
}

/// A search that ended stays as it is, and one whose numbers are too large for the screen ends
/// without a place.
pub proof fn ended_searches_stay(wanted: Seq<char>, end: Search, outcome: ToolOutcome)
    ensures
        end is Found || end is Failed || end is Unfit ==> capture::search_step(end, wanted, outcome)
            == end,
        (outcome matches ToolOutcome::Finished { code: Some(0), stdout, .. } && !ocr::centers_fit(
            text::utf8_lossy(stdout@),
            wanted,
        )) ==> capture::search_step(Search::Table, wanted, outcome) is Unfit,
{
}

/// Buttons are sought by their blue, with the components told one by one.
pub proof fn buttons_are_sought_by_their_color()
    ensures
        capture::component_arguments() == seq![
            "-alpha"@,
            "off"@,
            "-fuzz"@,
            "18%"@,
            "-fill"@,
            "black"@,
            "+opaque"@,
            "#3584e4"@,
            "-fill"@,
            "white"@,
            "-opaque"@,
            "#3584e4"@,
            "-define"@,
            "connected-components:verbose=true"@,
            "-connected-components"@,
            "8"@,
            "null:"@,
        ],
{
}

/// The first number that a tool wrote counts: nothing before it is a number.
pub proof fn the_first_number_counts(numbers: Seq<Option<u64>>)
    ensures
        match capture::first_number(numbers) {
            Some(n) => exists|k: int|
                {
                    &&& 0 <= k < numbers.len()
                    &&& #[trigger] numbers[k] == Some(n)
                    &&& forall|j: int| 0 <= j < k ==> #[trigger] numbers[j] is None
                },
            None => forall|j: int| 0 <= j < numbers.len() ==> #[trigger] numbers[j] is None,
        },
    decreases numbers.len(),
{
    if numbers.len() > 0 {
        if numbers[0] is None {
            let rest = numbers.drop_first();
            the_first_number_counts(rest);
            assert forall|j: int| 1 <= j < numbers.len() implies #[trigger] numbers[j] == rest[j
                - 1] by {}
            if let Some(n) = capture::first_number(rest) {
                let k = choose|k: int|
                    {
                        &&& 0 <= k < rest.len()
                        &&& #[trigger] rest[k] == Some(n)
                        &&& forall|j: int| 0 <= j < k ==> #[trigger] rest[j] is None
                    };
                assert(numbers[k + 1] == Some(n));
                assert forall|j: int| 0 <= j < k + 1 implies #[trigger] numbers[j] is None by {
                    if j > 0 {
                        assert(rest[j - 1] is None);
                    }
                }
            }
        }
    }
}

} // verus!
