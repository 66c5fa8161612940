//! What an app finds in its profile when it starts, and the arguments that lead it there.
use crate::output::{join_path, parts_of};
use crate::process::BudgetError;
use crate::screenshot::recipe::{Recipe, SetupFile};
use crate::text::{
    cat2, cat3, cat4, chars, find_from, has_char, list_contains, owned, same, split_once,
    starts_with, substring,
};
use crate::time::Duration;
use crate::{output, process, text};
use vstd::prelude::*;

verus! {

// ---------------------------------------------------------------------------
// Placeholders

/// The directory of the profile that a placeholder stands for.
pub open spec fn placeholder_directory(name: Seq<char>) -> Option<Seq<char>> {
    if name == "APP_DATA"@ {
        Some("data"@)
    } else if name == "APP_CONFIG"@ {
        Some("config"@)
    } else {
        None
    }
}

/// `front` before what came of the rest.
pub open spec fn after(front: Seq<char>, rest: Result<Seq<char>, Seq<char>>) -> Result<
    Seq<char>,
    Seq<char>,
> {
    match rest {
        Ok(tail) => Ok(front + tail),
        Err(fault) => Err(fault),
    }
}

/// What follows a placeholder is shorter than the text.
pub proof fn lemma_rest_is_shorter(written: Seq<char>)
    requires
        text::occurs_at(written, "${"@, 0),
    ensures
        text::cut_once(written.skip(2), '}') matches Some((name, rest)) ==> rest.len()
            < written.len(),
{
    reveal_strlit("${");
    written.skip(2).index_of_first_ensures('}');
}

/// A text with its placeholders replaced by directories of the profile, or its first fault. A
/// profile whose path is no text is `None`.
pub open spec fn replaced(written: Seq<char>, profile: Option<Seq<char>>) -> Result<
    Seq<char>,
    Seq<char>,
>
    decreases written.len(),
{
    if written.len() == 0 {
        Ok(Seq::empty())
    } else if text::occurs_at(written, "${"@, 0) {
        match text::cut_once(written.skip(2), '}') {
            None => Err("unterminated launch placeholder"@),
            Some((name, rest)) => match placeholder_directory(name) {
                None => Err(
                    "unsupported launch placeholder '${"@ + name
                        + "}'; use APP_DATA or APP_CONFIG"@,
                ),
                Some(directory) => match profile {
                    None => Err("app profile path is not UTF-8"@),
                    Some(path) => {
                        proof {
                            lemma_rest_is_shorter(written);
                        }
                        after(output::joined(path, directory), replaced(rest, profile))
                    },
                },
            },
        }
    } else {
        after(seq![written[0]], replaced(written.skip(1), profile))
    }
}

/// An argument for the app, or why it cannot be given.
pub open spec fn expanded(argument: Seq<char>, profile: Option<Seq<char>>) -> Result<
    Seq<char>,
    Seq<char>,
> {
    if argument.contains('\0') {
        Err("launch arguments must not contain NUL"@)
    } else {
        replaced(argument, profile)
    }
}

/// What comes before the first placeholder stays as it is.
proof fn lemma_plain_front(written: Seq<char>, profile: Option<Seq<char>>, count: int)
    requires
        0 <= count <= written.len(),
        forall|k: int| 0 <= k < count ==> !#[trigger] text::occurs_at(written, "${"@, k),
    ensures
        replaced(written, profile) == after(
            written.take(count),
            replaced(written.skip(count), profile),
        ),
    decreases count,
{
    if count == 0 {
        assert(written.skip(0) =~= written);
        let rest = replaced(written, profile);
        match rest {
            Ok(tail) => {
                assert(written.take(0) + tail =~= tail);
            },
            Err(_) => {},
        }
    } else {
        assert(!text::occurs_at(written, "${"@, 0));
        let tail = written.skip(1);
        assert forall|k: int| 0 <= k < count - 1 implies !#[trigger] text::occurs_at(
            tail,
            "${"@,
            k,
        ) by {
            if text::occurs_at(tail, "${"@, k) {
                let needle = "${"@;
                assert(written.subrange(k + 1, k + 1 + needle.len()) =~= tail.subrange(
                    k,
                    k + needle.len(),
                ));
                assert(text::occurs_at(written, "${"@, k + 1));
            }
        }
        lemma_plain_front(tail, profile, count - 1);
        assert(tail.skip(count - 1) =~= written.skip(count));
        match replaced(written.skip(count), profile) {
            Ok(end) => {
                assert(seq![written[0]] + (tail.take(count - 1) + end) =~= written.take(count)
                    + end);
            },
            Err(_) => {},
        }
    }
}

/// The argument for the app: `${APP_DATA}` and `${APP_CONFIG}` become directories of the profile,
/// whose path is `None` where it is no text.
pub fn expand(argument: &str, profile: Option<&str>) -> (out: Result<String, String>)
    ensures
        match expanded(
            argument@,
            match profile {
                Some(path) => Some(path@),
                None => None,
            },
        ) {
            Ok(expected) => out matches Ok(value) && value@ == expected,
            Err(fault) => out matches Err(message) && message@ == fault,
        },
{
    let ghost place = match profile {
        Some(path) => Some(path@),
        None => None,
    };
    if has_char(argument, '\0') {
        return Err(owned("launch arguments must not contain NUL"));
    }
    let needle = chars("${");
    proof {
        reveal_strlit("${");
    }
    let mut result = String::new();
    let mut rest = chars(argument);
    proof {
        match replaced(argument@, place) {
            Ok(tail) => {
                assert(Seq::<char>::empty() + tail =~= tail);
            },
            Err(_) => {},
        }
    }
    loop
        invariant
            needle@ == "${"@,
            needle@.len() == 2,
            !argument@.contains('\0'),
            place == match profile {
                Some(path) => Some(path@),
                None => None,
            },
            replaced(argument@, place) == after(result@, replaced(rest@, place)),
        decreases rest@.len(),
    {
        match find_from(&rest, &needle, 0) {
            None => {
                let tail = text::from_chars(&rest);
                proof {
                    assert forall|k: int| 0 <= k < rest@.len() implies !#[trigger] text::occurs_at(
                        rest@,
                        "${"@,
                        k,
                    ) by {}
                    lemma_plain_front(rest@, place, rest@.len() as int);
                    assert(rest@.take(rest@.len() as int) =~= rest@);
                    assert(rest@.skip(rest@.len() as int) =~= Seq::empty());
                    assert(rest@ + Seq::empty() =~= rest@);
                }
                return Ok(cat2(result.as_str(), tail.as_str()));
            },
            Some(start) => {
                let length: usize = rest.len();
                let plain = substring(&rest, 0, start);
                let inner = substring(&rest, start + 2, length);
                let ghost at = rest@.skip(start as int);
                proof {
                    lemma_plain_front(rest@, place, start as int);
                    assert(rest@.subrange(0, start as int) =~= rest@.take(start as int));
                    assert(at.subrange(0, 2) =~= rest@.subrange(start as int, start + 2));
                    assert(text::occurs_at(at, "${"@, 0));
                    assert(at.skip(2) =~= inner@);
                }
                let (name, tail) = match split_once(inner.as_str(), '}') {
                    Some(parts) => parts,
                    None => return Err(owned("unterminated launch placeholder")),
                };
                let directory = if same(name.as_str(), "APP_DATA") {
                    "data"
                } else if same(name.as_str(), "APP_CONFIG") {
                    "config"
                } else {
                    return Err(
                        cat3(
                            "unsupported launch placeholder '${",
                            name.as_str(),
                            "}'; use APP_DATA or APP_CONFIG",
                        ),
                    );
                };
                let path = match profile {
                    Some(path) => path,
                    None => return Err(owned("app profile path is not UTF-8")),
                };
                let place_text = join_path(path, directory);
                let ghost before = result@;
                let front = cat3(result.as_str(), plain.as_str(), place_text.as_str());
                result = front;
                proof {
                    let end = replaced(tail@, place);
                    inner@.index_of_first_ensures('}');
                    assert(tail@.len() < at.len());
                    assert(replaced(at, place) == after(place_text@, end));
                    match end {
                        Ok(text) => {
                            assert(before + (plain@ + (place_text@ + text)) =~= result@ + text);
                        },
                        Err(_) => {},
                    }
                }
                rest = chars(tail.as_str());
            },
        }
    }
}

/// An argument without a placeholder stays as it is.
pub proof fn plain_arguments_stay(argument: Seq<char>, profile: Option<Seq<char>>)
    requires
        !argument.contains('\0'),
        !text::occurs(argument, "${"@),
    ensures
        expanded(argument, profile) == Ok::<Seq<char>, Seq<char>>(argument),
{
    assert forall|k: int| 0 <= k < argument.len() implies !#[trigger] text::occurs_at(
        argument,
        "${"@,
        k,
    ) by {}
    lemma_plain_front(argument, profile, argument.len() as int);
    assert(argument.take(argument.len() as int) =~= argument);
    assert(argument.skip(argument.len() as int) =~= Seq::empty());
    assert(argument + Seq::empty() =~= argument);
}

proof fn lemma_replaced_in_parts(first: Seq<char>, second: Seq<char>, profile: Option<Seq<char>>)
    requires
        replaced(first, profile) is Ok,
        !(text::ends(first, "$"@) && text::begins(second, "{"@)),
    ensures
        replaced(first + second, profile) == after(
            replaced(first, profile)->Ok_0,
            replaced(second, profile),
        ),
    decreases first.len(),
{
    reveal_strlit("${");
    reveal_strlit("$");
    reveal_strlit("{");
    let both = first + second;
    if first.len() == 0 {
        assert(both =~= second);
        match replaced(second, profile) {
            Ok(tail) => {
                assert(Seq::<char>::empty() + tail =~= tail);
            },
            Err(_) => {},
        }
    } else if text::occurs_at(first, "${"@, 0) {
        lemma_rest_is_shorter(first);
        let inner = first.skip(2);
        let (name, rest) = text::cut_once(inner, '}')->0;
        inner.index_of_first_ensures('}');
        let at = inner.index_of_first('}')->0;
        assert(both.subrange(0, 2) =~= first.subrange(0, 2));
        assert(both.skip(2) =~= inner + second);
        let longer = inner + second;
        assert(longer[at] == '}');
        assert(longer.contains('}'));
        longer.index_of_first_ensures('}');
        let same = longer.index_of_first('}')->0;
        assert(same == at) by {
            if same < at {
                assert(inner[same] == '}');
            }
        }
        assert(longer.take(at) =~= name);
        assert(longer.skip(at + 1) =~= rest + second);
        assert(rest =~= first.skip(first.len() - rest.len()));
        lemma_end_stays(first, rest);
        lemma_replaced_in_parts(rest, second, profile);
        let directory = output::joined(profile->0, placeholder_directory(name)->0);
        match replaced(second, profile) {
            Ok(tail) => {
                let middle = replaced(rest, profile)->Ok_0;
                assert(directory + (middle + tail) =~= (directory + middle) + tail);
            },
            Err(_) => {},
        }
    } else {
        let rest = first.skip(1);
        assert(!text::occurs_at(both, "${"@, 0)) by {
            if text::occurs_at(both, "${"@, 0) {
                let front = both.subrange(0, 2);
                assert(front[0] == '$' && front[1] == '{');
                if first.len() > 1 {
                    assert(first.subrange(0, 2) =~= front);
                } else {
                    assert(first.subrange(0, 1) =~= "$"@);
                    assert(second[0] == '{');
                    assert(second.subrange(0, 1) =~= "{"@);
                }
            }
        }
        assert(both.skip(1) =~= rest + second);
        lemma_end_stays(first, rest);
        lemma_replaced_in_parts(rest, second, profile);
        match replaced(second, profile) {
            Ok(tail) => {
                let middle = replaced(rest, profile)->Ok_0;
                assert(seq![first[0]] + (middle + tail) =~= (seq![first[0]] + middle) + tail);
            },
            Err(_) => {},
        }
    }
}

/// The end of a text ends with a dollar sign only where the text does.
proof fn lemma_end_stays(all: Seq<char>, end: Seq<char>)
    requires
        end.len() <= all.len(),
        end == all.skip(all.len() - end.len()),
    ensures
        text::ends(end, "$"@) ==> text::ends(all, "$"@),
{
    reveal_strlit("$");
    if text::ends(end, "$"@) {
        assert(all.subrange(all.len() - 1, all.len() as int) =~= end.subrange(
            end.len() - 1,
            end.len() as int,
        ));
    }
}

/// An argument in two parts, of which the first is accepted, expands part by part. A dollar sign
/// and a brace that only meet between the parts would begin a placeholder that is in neither.
pub proof fn arguments_expand_part_by_part(
    first: Seq<char>,
    second: Seq<char>,
    profile: Option<Seq<char>>,
)
    requires
        expanded(first, profile) is Ok,
        !(text::ends(first, "$"@) && text::begins(second, "{"@)),
    ensures
        expanded(first + second, profile) == after(
            expanded(first, profile)->Ok_0,
            expanded(second, profile),
        ),
{
    let both = first + second;
    if second.contains('\0') {
        let i = choose|i: int| 0 <= i < second.len() && second[i] == '\0';
        assert(both[first.len() + i] == '\0');
    } else {
        assert(!both.contains('\0')) by {
            if both.contains('\0') {
                let i = choose|i: int| 0 <= i < both.len() && both[i] == '\0';
                if i < first.len() {
                    assert(first[i] == '\0');
                } else {
                    assert(second[i - first.len()] == '\0');
                }
            }
        }
        lemma_replaced_in_parts(first, second, profile);
    }
}

/// Whether an argument is accepted does not depend on where the profile is.
pub proof fn acceptance_does_not_depend_on_the_profile(
    argument: Seq<char>,
    one: Seq<char>,
    other: Seq<char>,
)
    ensures
        expanded(argument, Some(one)) is Ok <==> expanded(argument, Some(other)) is Ok,
        expanded(argument, Some(one)) is Err ==> expanded(argument, Some(one)) == expanded(
            argument,
            Some(other),
        ),
{
    lemma_same_faults(argument, one, other);
}

proof fn lemma_same_faults(written: Seq<char>, one: Seq<char>, other: Seq<char>)
    ensures
        replaced(written, Some(one)) is Ok <==> replaced(written, Some(other)) is Ok,
        replaced(written, Some(one)) is Err ==> replaced(written, Some(one)) == replaced(
            written,
            Some(other),
        ),
    decreases written.len(),
{
    if written.len() > 0 {
        lemma_same_faults(written.skip(1), one, other);
        if text::occurs_at(written, "${"@, 0) {
            lemma_rest_is_shorter(written);
            match text::cut_once(written.skip(2), '}') {
                None => {},
                Some((name, rest)) => {
                    lemma_same_faults(rest, one, other);
                },
            }
        }
    }
}

// ---------------------------------------------------------------------------
// Files

/// Whether a source lies beneath the directory of the recipe, by its name.
pub open spec fn source_ok(source: Seq<char>) -> bool {
    &&& source.len() > 0
    &&& !text::begins(source, "/"@)
    &&& !output::path_parts(source).contains(".."@)
}

/// Whether a destination lies beneath the data or the configuration of the app, by its name.
pub open spec fn destination_ok(destination: Seq<char>) -> bool {
    let parts = output::path_parts(destination);
    &&& !text::begins(destination, "/"@)
    &&& parts.len() >= 2
    &&& (parts[0] == "data"@ || parts[0] == "config"@)
    &&& !parts.contains(".."@)
}

/// What is wrong with a file of the setup, if anything is.
pub open spec fn file_fault(file: SetupFile) -> Option<Seq<char>> {
    if !source_ok(file.source@) {
        Some(
            "setup source must be a nonempty relative path without '..': '"@ + file.source@ + "'"@,
        )
    } else if !destination_ok(file.destination@) {
        Some(
            "setup destination must name a path beneath data/ or config/: '"@ + file.destination@
                + "'"@,
        )
    } else {
        None
    }
}

/// The first fault of the files from number `from` on.
pub open spec fn files_fault(files: Seq<SetupFile>, from: int) -> Option<Seq<char>>
    decreases files.len() - from,
{
    if from < 0 || from >= files.len() {
        None
    } else {
        match file_fault(files[from]) {
            Some(fault) => Some(fault),
            None => files_fault(files, from + 1),
        }
    }
}

/// The first fault of the arguments from number `from` on.
pub open spec fn arguments_fault(args: Seq<Seq<char>>, from: int) -> Option<Seq<char>>
    decreases args.len() - from,
{
    if from < 0 || from >= args.len() {
        None
    } else {
        match expanded(args[from], Some(Seq::empty())) {
            Err(fault) => Some(fault),
            Ok(_) => arguments_fault(args, from + 1),
        }
    }
}

/// What is wrong with the setup or the launch of a recipe, if anything is.
pub open spec fn settings_fault(recipe: Recipe) -> Option<Seq<char>> {
    match files_fault(recipe.setup.files@, 0) {
        Some(fault) => Some(fault),
        None => arguments_fault(text::views(recipe.launch.args@), 0),
    }
}

fn check_file(file: &SetupFile) -> (out: Result<(), String>)
    ensures
        match file_fault(*file) {
            Some(fault) => out matches Err(message) && message@ == fault,
            None => out is Ok,
        },
{
    let source = file.source.as_str();
    if source.is_empty() || starts_with(source, "/") || list_contains(&parts_of(source), "..") {
        return Err(
            cat3("setup source must be a nonempty relative path without '..': '", source, "'"),
        );
    }
    let destination = file.destination.as_str();
    let parts = parts_of(destination);
    assert(forall|i: int|
        0 <= i < parts@.len() ==> (#[trigger] parts@[i])@ == text::views(parts@)[i]);
    if starts_with(destination, "/") || parts.len() < 2 || !(same(parts[0].as_str(), "data")
        || same(parts[0].as_str(), "config")) || list_contains(&parts, "..") {
        return Err(
            cat3(
                "setup destination must name a path beneath data/ or config/: '",
                destination,
                "'",
            ),
        );
    }
    Ok(())
}

/// Checks the setup and the launch of a recipe before anything is installed.
pub fn check_settings(recipe: &Recipe) -> (out: Result<(), String>)
    ensures
        match settings_fault(*recipe) {
            Some(fault) => out matches Err(message) && message@ == fault,
            None => out is Ok,
        },
{
    let files = &recipe.setup.files;
    let mut i: usize = 0;
    while i < files.len()
        invariant
            i <= files@.len(),
            files_fault(files@, 0) == files_fault(files@, i as int),
            files@ == recipe.setup.files@,
        decreases files@.len() - i,
    {
        match check_file(&files[i]) {
            Ok(()) => {},
            Err(message) => return Err(message),
        }
        i = i + 1;
    }
    let args = &recipe.launch.args;
    let ghost written = text::views(args@);
    let mut j: usize = 0;
    proof {
        reveal_strlit("");
        assert(""@ =~= Seq::empty());
    }
    while j < args.len()
        invariant
            j <= args@.len(),
            written == text::views(args@),
            args@ == recipe.launch.args@,
            ""@ == Seq::<char>::empty(),
            files_fault(recipe.setup.files@, 0) is None,
            arguments_fault(written, 0) == arguments_fault(written, j as int),
        decreases args@.len() - j,
    {
        assert(written[j as int] == args@[j as int]@);
        match expand(args[j].as_str(), Some("")) {
            Ok(_) => {},
            Err(message) => return Err(message),
        }
        j = j + 1;
    }
    Ok(())
}

/// Where a path leads from a directory: a part leads into a directory, two dots lead out of one,
/// and one dot leads nowhere.
pub open spec fn resolved(from: Seq<Seq<char>>, parts: Seq<Seq<char>>) -> Seq<Seq<char>>
    decreases parts.len(),
{
    if parts.len() == 0 {
        from
    } else {
        let before = resolved(from, parts.drop_last());
        if parts.last() == ".."@ {
            if before.len() > 0 {
                before.drop_last()
            } else {
                before
            }
        } else if parts.last() == "."@ {
            before
        } else {
            before.push(parts.last())
        }
    }
}

/// A path without two dots leads nowhere but further down.
proof fn lemma_leads_down(from: Seq<Seq<char>>, parts: Seq<Seq<char>>, count: int)
    requires
        0 <= count <= parts.len(),
        !parts.contains(".."@),
    ensures
        text::begins(resolved(from, parts), resolved(from, parts.take(count))),
    decreases parts.len(),
{
    if count == parts.len() {
        assert(parts.take(count) =~= parts);
        let all = resolved(from, parts);
        assert(all.subrange(0, all.len() as int) =~= all);
        assert(all.take(all.len() as int) =~= all);
    } else {
        let shorter = parts.drop_last();
        assert(!shorter.contains(".."@)) by {
            if shorter.contains(".."@) {
                let k = choose|k: int| 0 <= k < shorter.len() && shorter[k] == ".."@;
                assert(parts[k] == ".."@);
            }
        }
        lemma_leads_down(from, shorter, count);
        assert(shorter.take(count) =~= parts.take(count));
        assert(parts.last() != ".."@) by {
            assert(parts.contains(parts.last()));
        }
        let goal = resolved(from, parts.take(count));
        let before = resolved(from, shorter);
        let all = resolved(from, parts);
        assert(text::begins(before, goal));
        assert(before.take(goal.len() as int) == goal);
        assert(all.take(goal.len() as int) =~= before.take(goal.len() as int));
    }
}

/// Nothing of the setup leaves the profile: a destination that is accepted leads into the data or
/// the configuration there, whatever else it names.
pub proof fn destinations_stay_in_the_profile(profile: Seq<Seq<char>>, destination: Seq<char>)
    requires
        destination_ok(destination),
    ensures
        ({
            let place = resolved(profile, output::path_parts(destination));
            text::begins(place, profile.push("data"@)) || text::begins(
                place,
                profile.push("config"@),
            )
        }),
{
    reveal_strlit("data");
    reveal_strlit("config");
    reveal_strlit(".");
    reveal_strlit("..");
    let parts = output::path_parts(destination);
    lemma_leads_down(profile, parts, 1);
    let first = parts.take(1);
    assert(first.drop_last().len() == 0);
    assert(resolved(profile, first.drop_last()) == profile);
    assert(first.last() == parts[0]);
    assert(parts[0].len() != 1 && parts[0].len() != 2);
    assert(resolved(profile, first) == profile.push(parts[0]));
}

/// Nothing is taken from outside the directory of the recipe: a source that is accepted leads
/// further down from there.
pub proof fn sources_stay_beside_the_recipe(directory: Seq<Seq<char>>, source: Seq<char>)
    requires
        source_ok(source),
    ensures
        text::begins(resolved(directory, output::path_parts(source)), directory),
{
    let parts = output::path_parts(source);
    lemma_leads_down(directory, parts, 0);
    assert(parts.take(0) =~= Seq::empty());
}

/// What a source is.
#[derive(Debug, Clone, Copy, PartialEq, Eq, Structural)]
pub enum SourceKind {
    Directory,
    File,
    Other,
}

/// What to do with a source.
#[derive(Debug, Clone, Copy, PartialEq, Eq, Structural)]
pub enum CopyStep {
    /// Make the directory, and copy what the source holds into it.
    Directory,
    /// Make the directory around it, and copy the contents to a file that is not there yet.
    File,
}

/// What to do with a source. `link` is the first link among the source and what is above it.
pub fn copy(budget: Result<Duration, BudgetError>, link: Option<&str>, kind: SourceKind) -> (out:
    Result<CopyStep, String>)
    ensures
        match (budget, link) {
            (Err(error), _) => out matches Err(message) && message@ == process::budget_message(
                error,
            ),
            (Ok(_), Some(path)) => out matches Err(message) && message@
                == "setup source contains a symlink: "@ + path@,
            (Ok(_), None) => match kind {
                SourceKind::Directory => out == Ok::<CopyStep, String>(CopyStep::Directory),
                SourceKind::File => out == Ok::<CopyStep, String>(CopyStep::File),
                SourceKind::Other => out matches Err(message) && message@
                    == "source must be a regular file or directory"@,
            },
        },
{
    match budget {
        Err(error) => return Err(owned(error.message())),
        Ok(_) => {},
    }
    match link {
        Some(path) => return Err(cat2("setup source contains a symlink: ", path)),
        None => {},
    }
    match kind {
        SourceKind::Directory => Ok(CopyStep::Directory),
        SourceKind::File => Ok(CopyStep::File),
        SourceKind::Other => Err(owned("source must be a regular file or directory")),
    }
}

/// What a failure to copy is told as.
pub fn seeding_error(destination: &str, source: &str, error: &str) -> (out: String)
    ensures
        out@ == "seeding "@ + destination@ + " from "@ + source@ + ": "@ + error@,
{
    let head = cat4("seeding ", destination, " from ", source);
    cat3(head.as_str(), ": ", error)
}

/// The arguments of the app, in the profile at `profile`, or the first that cannot be given.
pub open spec fn launch_arguments(args: Seq<Seq<char>>, profile: Option<Seq<char>>) -> Result<
    Seq<Seq<char>>,
    Seq<char>,
>
    decreases args.len(),
{
    if args.len() == 0 {
        Ok(Seq::empty())
    } else {
        match launch_arguments(args.drop_last(), profile) {
            Err(fault) => Err(fault),
            Ok(values) => match expanded(args.last(), profile) {
                Err(fault) => Err(fault),
                Ok(value) => Ok(values.push(value)),
            },
        }
    }
}

/// The first argument that cannot be given is the one that counts.
proof fn lemma_argument_fault_stays(
    args: Seq<Seq<char>>,
    profile: Option<Seq<char>>,
    count: int,
)
    requires
        0 <= count <= args.len(),
        launch_arguments(args.take(count), profile) is Err,
    ensures
        launch_arguments(args, profile) == launch_arguments(args.take(count), profile),
    decreases args.len(),
{
    if count < args.len() {
        assert(args.drop_last().take(count) =~= args.take(count));
        lemma_argument_fault_stays(args.drop_last(), profile, count);
    } else {
        assert(args.take(count) =~= args);
    }
}

/// The arguments of the app, in the profile at `profile`, or why one cannot be given.
pub fn launch_args(args: &Vec<String>, profile: Option<&str>) -> (out: Result<Vec<String>, String>)
    ensures
        match launch_arguments(
            text::views(args@),
            match profile {
                Some(path) => Some(path@),
                None => None,
            },
        ) {
            Ok(expected) => out matches Ok(values) && text::views(values@) == expected,
            Err(fault) => out matches Err(message) && message@ == fault,
        },
{
    let ghost place = match profile {
        Some(path) => Some(path@),
        None => None,
    };
    let ghost written = text::views(args@);
    let mut values: Vec<String> = Vec::new();
    let mut i: usize = 0;
    assert(written.take(0) =~= Seq::empty());
    assert(text::views(values@) =~= Seq::empty());
    while i < args.len()
        invariant
            i <= args@.len(),
            written == text::views(args@),
            place == match profile {
                Some(path) => Some(path@),
                None => None,
            },
            launch_arguments(written.take(i as int), place) == Ok::<Seq<Seq<char>>, Seq<char>>(
                text::views(values@),
            ),
        decreases args@.len() - i,
    {
        proof {
            assert(written.take(i + 1).drop_last() =~= written.take(i as int));
            assert(written.take(i + 1).last() == args@[i as int]@);
        }
        match expand(args[i].as_str(), profile) {
            Ok(value) => {
                proof {
                    text::lemma_views_push(values@, value);
                }
                values.push(value);
            },
            Err(message) => {
                proof {
                    lemma_argument_fault_stays(written, place, i + 1);
                }
                return Err(message);
            },
        }
        i = i + 1;
    }
    assert(written.take(written.len() as int) =~= written);
    Ok(values)
}

} // verus!
