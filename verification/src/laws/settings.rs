//! Settings: paths, placeholders, durations and what stands in their messages.
use crate::laws::{numbers, texts};
use crate::output::OutputLayout;
use crate::screenshot::recipe::{Recipe, SetupFile};
use crate::screenshot::setup;
use crate::{cli, number, output, text, time};
use vstd::prelude::*;

verus! {

// ---------------------------------------------------------------------------
// Paths

/// A name is put below a directory with one slash between them. A name with a slash in front stands
/// for itself, and so does a name below nothing.
pub proof fn names_are_put_below_directories(base: Seq<char>, name: Seq<char>)
    ensures
        name.len() > 0 && name[0] == '/' ==> output::joined(base, name) == name,
        base.len() == 0 ==> output::joined(base, name) == name,
        base.len() > 0 && base.last() != '/' && (name.len() == 0 || name[0] != '/')
            ==> output::joined(base, name) == base + seq!['/'] + name,
        base.len() > 0 && base.last() == '/' && (name.len() == 0 || name[0] != '/')
            ==> output::joined(base, name) == base + name,
{
    reveal_strlit("/");
    assert("/"@ =~= seq!['/']);
    if name.len() > 0 {
        assert(name.subrange(0, 1)[0] == name[0]);
        if name[0] == '/' {
            assert(name.subrange(0, 1) =~= "/"@);
        }
    }
    if base.len() > 0 {
        assert(base.subrange(base.len() - 1, base.len() as int)[0] == base.last());
        if base.last() == '/' {
            assert(base.subrange(base.len() - 1, base.len() as int) =~= "/"@);
        }
    }
}

/// Where the results of a run lie, below its directory.
pub proof fn results_lie_below_their_directory(layout: OutputLayout, root: Seq<char>)
    requires
        layout.below(root),
        root.len() > 0,
        root.last() != '/',
    ensures
        layout.screenshots_dir@ == root + "/screenshots"@,
        layout.logs_dir@ == root + "/logs"@,
        layout.result_json@ == root + "/result.json"@,
        layout.screenshots_json@ == root + "/screenshots.json"@,
        layout.app_stdout@ == root + "/logs/app.stdout.log"@,
        layout.app_stderr@ == root + "/logs/app.stderr.log"@,
        layout.runner_log@ == root + "/logs/runner.log"@,
        output::artifact_names() == seq![
            "result.json"@,
            "screenshots.json"@,
            "screenshots"@,
            "logs"@,
        ],
{
    reveal_strlit("screenshots");
    reveal_strlit("/screenshots");
    reveal_strlit("logs");
    reveal_strlit("/logs");
    reveal_strlit("result.json");
    reveal_strlit("/result.json");
    reveal_strlit("screenshots.json");
    reveal_strlit("/screenshots.json");
    reveal_strlit("app.stdout.log");
    reveal_strlit("/logs/app.stdout.log");
    reveal_strlit("app.stderr.log");
    reveal_strlit("/logs/app.stderr.log");
    reveal_strlit("runner.log");
    reveal_strlit("/logs/runner.log");
    names_are_put_below_directories(root, "screenshots"@);
    names_are_put_below_directories(root, "logs"@);
    names_are_put_below_directories(root, "result.json"@);
    names_are_put_below_directories(root, "screenshots.json"@);
    let logs = layout.logs_dir@;
    assert(logs =~= root + "/logs"@);
    assert(logs.last() == 's');
    names_are_put_below_directories(logs, "app.stdout.log"@);
    names_are_put_below_directories(logs, "app.stderr.log"@);
    names_are_put_below_directories(logs, "runner.log"@);
    assert(layout.screenshots_dir@ =~= root + "/screenshots"@);
    assert(layout.result_json@ =~= root + "/result.json"@);
    assert(layout.screenshots_json@ =~= root + "/screenshots.json"@);
    assert(layout.app_stdout@ =~= root + "/logs/app.stdout.log"@);
    assert(layout.app_stderr@ =~= root + "/logs/app.stderr.log"@);
    assert(layout.runner_log@ =~= root + "/logs/runner.log"@);
}

proof fn lemma_named_parts(pieces: Seq<Seq<char>>, last: Seq<char>)
    ensures
        last.len() == 0 ==> output::named_parts(pieces.push(last)) == output::named_parts(pieces),
        last.len() > 0 && pieces.len() > 0 && last == "."@ ==> output::named_parts(
            pieces.push(last),
        ) == output::named_parts(pieces),
        last.len() > 0 && (pieces.len() == 0 || last != "."@) ==> output::named_parts(
            pieces.push(last),
        ) == output::named_parts(pieces).push(last),
{
    assert(pieces.push(last).drop_last() =~= pieces);
    assert(pieces.push(last).last() == last);
}

/// A path has its parts between slashes. One behind a slash that is empty or a dot does not count.
pub proof fn paths_have_parts(path: Seq<char>, name: Seq<char>)
    requires
        !name.contains('/'),
    ensures
        name.len() > 0 ==> output::path_parts(name) == seq![name],
        name.len() == 0 ==> output::path_parts(name) == Seq::<Seq<char>>::empty(),
        name.len() == 0 || name == "."@ ==> output::path_parts(path + seq!['/'] + name)
            == output::path_parts(path),
        name.len() > 0 && name != "."@ ==> output::path_parts(path + seq!['/'] + name)
            == output::path_parts(path).push(name),
{
    text::lemma_split_single(name, '/');
    assert(text::split_on(name, '/') =~= Seq::<Seq<char>>::empty().push(name));
    lemma_named_parts(Seq::empty(), name);
    lemma_split_behind(path, name);
    text::lemma_split_pieces(path, '/');
    lemma_named_parts(text::split_on(path, '/'), name);
    if name.len() > 0 {
        assert(output::path_parts(name) =~= seq![name]);
    }
}

proof fn lemma_split_behind(path: Seq<char>, name: Seq<char>)
    requires
        !name.contains('/'),
    ensures
        text::split_on(path + seq!['/'] + name, '/') == text::split_on(path, '/').push(name),
{
    let pieces = text::split_on(path, '/');
    text::lemma_split_pieces(path, '/');
    text::lemma_split_join(path, '/');
    let all = pieces.push(name);
    assert(all.drop_last() =~= pieces);
    assert forall|i: int| 0 <= i < all.len() implies !(#[trigger] all[i]).contains('/') by {
        if i < pieces.len() {
            assert(all[i] == pieces[i]);
        }
    }
    text::lemma_join_split(all, '/');
    assert(text::join_seq(all, seq!['/']) =~= path + seq!['/'] + name);
}

/// A path has one component for each part, and one for the root where it begins there.
pub proof fn the_root_is_a_component(path: Seq<char>)
    ensures
        path.len() > 0 && path[0] == '/' ==> output::component_count(path) == output::path_parts(
            path,
        ).len() + 1,
        path.len() == 0 || path[0] != '/' ==> output::component_count(path) == output::path_parts(
            path,
        ).len(),
{
    reveal_strlit("/");
    if path.len() > 0 {
        assert(path.subrange(0, 1)[0] == path[0]);
        if path[0] == '/' {
            assert(path.subrange(0, 1) =~= "/"@);
        }
    }
}

// ---------------------------------------------------------------------------
// Files of a setup

/// A file of a setup is accepted exactly when its source is a path below the recipe's directory and
/// its destination one below `data` or `config`, neither with two dots in it.
pub proof fn setup_files_are_accepted(file: SetupFile)
    ensures
        ({
            let source = file.source@;
            let destination = file.destination@;
            let parts = output::path_parts(destination);
            let good_source = source.len() > 0 && source[0] != '/' && !output::path_parts(
                source,
            ).contains(".."@);
            let good_destination = (destination.len() == 0 || destination[0] != '/') && parts.len()
                > 1 && (parts[0] == "data"@ || parts[0] == "config"@) && !parts.contains(".."@);
            &&& setup::file_fault(file) is None <==> good_source && good_destination
            &&& !good_source ==> setup::file_fault(file) == Some(
                "setup source must be a nonempty relative path without '..': '"@ + source + "'"@,
            )
            &&& good_source && !good_destination ==> setup::file_fault(file) == Some(
                "setup destination must name a path beneath data/ or config/: '"@ + destination
                    + "'"@,
            )
        }),
{
    lemma_begins_at_root(file.source@);
    lemma_begins_at_root(file.destination@);
}

proof fn lemma_begins_at_root(path: Seq<char>)
    ensures
        text::begins(path, "/"@) <==> path.len() > 0 && path[0] == '/',
{
    reveal_strlit("/");
    if path.len() > 0 {
        assert(path.subrange(0, 1)[0] == path[0]);
        if path[0] == '/' {
            assert(path.subrange(0, 1) =~= "/"@);
        }
    }
}

proof fn lemma_files(files: Seq<SetupFile>, from: int, k: int)
    requires
        0 <= from <= k <= files.len(),
        forall|i: int| from <= i < k ==> setup::file_fault(#[trigger] files[i]) is None,
        k < files.len() ==> setup::file_fault(files[k]) is Some,
    ensures
        setup::files_fault(files, from) == if k < files.len() {
            setup::file_fault(files[k])
        } else {
            None
        },
    decreases k - from,
{
    if from < k {
        lemma_files(files, from + 1, k);
    }
}

proof fn lemma_arguments(args: Seq<Seq<char>>, from: int, k: int)
    requires
        0 <= from <= k <= args.len(),
        forall|i: int|
            from <= i < k ==> setup::expanded(#[trigger] args[i], Some(Seq::empty())) is Ok,
        k < args.len() ==> setup::expanded(args[k], Some(Seq::empty())) is Err,
    ensures
        setup::arguments_fault(args, from) == if k < args.len() {
            Some(setup::expanded(args[k], Some(Seq::empty()))->Err_0)
        } else {
            None
        },
    decreases k - from,
{
    if from < k {
        lemma_arguments(args, from + 1, k);
    }
}

/// The first file that is wrong is told, and where all files are in order, the first argument that
/// is.
pub proof fn the_first_wrong_setting_is_told(recipe: Recipe, f: int, a: int)
    requires
        0 <= f <= recipe.setup.files@.len(),
        forall|i: int|
            0 <= i < f ==> setup::file_fault(#[trigger] recipe.setup.files@[i]) is None,
        f < recipe.setup.files@.len() ==> setup::file_fault(recipe.setup.files@[f]) is Some,
        0 <= a <= recipe.launch.args@.len(),
        forall|i: int|
            0 <= i < a ==> setup::expanded(
                (#[trigger] recipe.launch.args@[i])@,
                Some(Seq::empty()),
            ) is Ok,
        a < recipe.launch.args@.len() ==> setup::expanded(
            recipe.launch.args@[a]@,
            Some(Seq::empty()),
        ) is Err,
    ensures
        f < recipe.setup.files@.len() ==> setup::settings_fault(recipe) == setup::file_fault(
            recipe.setup.files@[f],
        ),
        f == recipe.setup.files@.len() && a < recipe.launch.args@.len() ==> setup::settings_fault(
            recipe,
        ) == Some(
            setup::expanded(recipe.launch.args@[a]@, Some(Seq::empty()))->Err_0,
        ),
        f == recipe.setup.files@.len() && a == recipe.launch.args@.len() ==> setup::settings_fault(
            recipe,
        ) is None,
{
    let args = text::views(recipe.launch.args@);
    lemma_files(recipe.setup.files@, 0, f);
    assert forall|i: int| 0 <= i < a implies setup::expanded(
        #[trigger] args[i],
        Some(Seq::empty()),
    ) is Ok by {
        assert(args[i] == recipe.launch.args@[i]@);
    }
    lemma_arguments(args, 0, a);
}

// ---------------------------------------------------------------------------
// Placeholders

proof fn lemma_placeholder(name: Seq<char>, rest: Seq<char>)
    requires
        !name.contains('}'),
    ensures
        ({
            let all = seq!['$', '{'] + name + seq!['}'] + rest;
            &&& text::occurs_at(all, "${"@, 0)
            &&& text::cut_once(all.skip(2), '}') == Some((name, rest))
            &&& all.len() > 0
        }),
{
    reveal_strlit("${");
    let all = seq!['$', '{'] + name + seq!['}'] + rest;
    assert(all.subrange(0, 2) =~= "${"@);
    assert(all.skip(2) =~= name + seq!['}'] + rest);
    texts::separators_part_pieces(name, '}', rest);
}

/// A placeholder in front of an argument gives the directory of the profile that it names, and what
/// follows it is expanded too. Another name, one that does not end, and a profile whose path is no
/// text are told.
pub proof fn placeholders_give_directories(
    name: Seq<char>,
    rest: Seq<char>,
    profile: Seq<char>,
)
    requires
        !name.contains('}'),
        !(seq!['$', '{'] + name + seq!['}'] + rest).contains('\0'),
        !rest.contains('\0'),
    ensures
        ({
            let all = seq!['$', '{'] + name + seq!['}'] + rest;
            &&& name == "APP_DATA"@ ==> (setup::expanded(rest, Some(profile)) matches Ok(tail)
                ==> setup::expanded(all, Some(profile)) == Ok::<Seq<char>, Seq<char>>(
                output::joined(profile, "data"@) + tail,
            ))
            &&& name == "APP_CONFIG"@ ==> (setup::expanded(rest, Some(profile)) matches Ok(tail)
                ==> setup::expanded(all, Some(profile)) == Ok::<Seq<char>, Seq<char>>(
                output::joined(profile, "config"@) + tail,
            ))
            &&& name == "APP_DATA"@ || name == "APP_CONFIG"@ ==> setup::expanded(all, None) == Err::<
                Seq<char>,
                Seq<char>,
            >("app profile path is not UTF-8"@)
            &&& name != "APP_DATA"@ && name != "APP_CONFIG"@ ==> setup::expanded(
                all,
                Some(profile),
            ) == Err::<Seq<char>, Seq<char>>(
                "unsupported launch placeholder '${"@ + name + "}'; use APP_DATA or APP_CONFIG"@,
            )
        }),
{
    reveal_strlit("APP_DATA");
    reveal_strlit("APP_CONFIG");
    lemma_placeholder(name, rest);
    if name == "APP_CONFIG"@ {
        assert("APP_DATA"@.len() != "APP_CONFIG"@.len());
    }
}

/// A placeholder that does not end is told, and so is an argument with a NUL.
pub proof fn unfinished_placeholders_are_told(
    name: Seq<char>,
    argument: Seq<char>,
    profile: Option<Seq<char>>,
)
    ensures
        !name.contains('}') && !name.contains('\0') ==> setup::expanded(
            seq!['$', '{'] + name,
            profile,
        ) == Err::<Seq<char>, Seq<char>>("unterminated launch placeholder"@),
        argument.contains('\0') ==> setup::expanded(argument, profile) == Err::<
            Seq<char>,
            Seq<char>,
        >("launch arguments must not contain NUL"@),
{
    reveal_strlit("${");
    let all = seq!['$', '{'] + name;
    assert(all.subrange(0, 2) =~= "${"@);
    assert(all.skip(2) =~= name);
    if !name.contains('}') && !name.contains('\0') {
        assert(!all.contains('\0')) by {
            if all.contains('\0') {
                let i = choose|i: int| 0 <= i < all.len() && all[i] == '\0';
                if i >= 2 {
                    assert(name[i - 2] == '\0');
                }
            }
        }
        texts::separators_part_pieces(name, '}', name);
    }
}

/// The arguments of an app are all expanded, in order, or the first that cannot be is told.
pub proof fn arguments_are_expanded_in_order(
    args: Seq<Seq<char>>,
    profile: Option<Seq<char>>,
    values: Seq<Seq<char>>,
)
    ensures
        setup::launch_arguments(args, profile) == Ok::<Seq<Seq<char>>, Seq<char>>(values) <==> {
            &&& values.len() == args.len()
            &&& forall|i: int|
                0 <= i < args.len() ==> setup::expanded(#[trigger] args[i], profile) == Ok::<
                    Seq<char>,
                    Seq<char>,
                >(values[i])
        },
    decreases args.len(),
{
    if args.len() == 0 {
        if values.len() == 0 {
            assert(values =~= Seq::empty());
        }
    } else {
        let less = args.drop_last();
        let n = args.len() - 1;
        if setup::launch_arguments(args, profile) == Ok::<Seq<Seq<char>>, Seq<char>>(values) {
            let before = setup::launch_arguments(less, profile)->Ok_0;
            arguments_are_expanded_in_order(less, profile, before);
            assert(values == before.push(values.last()));
            assert forall|i: int| 0 <= i < args.len() implies setup::expanded(
                #[trigger] args[i],
                profile,
            ) == Ok::<Seq<char>, Seq<char>>(values[i]) by {
                if i < n {
                    assert(less[i] == args[i]);
                }
            }
        }
        if values.len() == args.len() && (forall|i: int|
            0 <= i < args.len() ==> setup::expanded(#[trigger] args[i], profile) == Ok::<
                Seq<char>,
                Seq<char>,
            >(values[i])) {
            let before = values.drop_last();
            assert forall|i: int| 0 <= i < less.len() implies setup::expanded(
                #[trigger] less[i],
                profile,
            ) == Ok::<Seq<char>, Seq<char>>(before[i]) by {
                assert(less[i] == args[i]);
            }
            arguments_are_expanded_in_order(less, profile, before);
            assert(args[n] == args.last());
            assert(before.push(values[n]) =~= values);
        }
    }
}

// ---------------------------------------------------------------------------
// Durations

proof fn lemma_unit(digits: Seq<char>, unit: Seq<char>, front: Seq<char>, back: Seq<char>)
    requires
        digits.len() > 0,
        number::all_digits(digits),
        texts::all_white(front),
        texts::all_white(back),
        unit.len() > 0 ==> !text::is_white(unit.last()),
    ensures
        text::trimmed(front + (digits + unit) + back) == digits + unit,
        (digits + unit).take(digits.len() as int) == digits,
{
    let all = digits + unit;
    assert(text::is_digit(digits[0]));
    assert(text::is_digit(digits[digits.len() - 1]));
    assert(all[0] == digits[0]);
    if unit.len() > 0 {
        assert(all.last() == unit.last());
    } else {
        assert(all.last() == digits.last());
    }
    texts::trimming_leaves_the_text(front, all, back);
    assert(all.take(digits.len() as int) =~= digits);
}

/// A number with a unit is so many milliseconds, seconds or minutes, whatever white space is around
/// it. Without a unit it is so many seconds.
pub proof fn durations_are_numbers_with_units(count: nat, front: Seq<char>, back: Seq<char>)
    requires
        0 < count <= u64::MAX,
        texts::all_white(front),
        texts::all_white(back),
    ensures
        ({
            let digits = number::decimal_seq(count);
            &&& cli::duration_value(front + (digits + seq!['m', 's']) + back) == Ok::<
                nat,
                Seq<char>,
            >(count * 1_000_000)
            &&& cli::duration_value(front + (digits + seq!['s']) + back) == Ok::<nat, Seq<char>>(
                count * 1_000_000_000,
            )
            &&& cli::duration_value(front + digits + back) == Ok::<nat, Seq<char>>(
                count * 1_000_000_000,
            )
            &&& count * 60 <= u64::MAX ==> cli::duration_value(
                front + (digits + seq!['m']) + back,
            ) == Ok::<nat, Seq<char>>(count * 60_000_000_000)
            &&& count * 60 > u64::MAX ==> cli::duration_value(
                front + (digits + seq!['m']) + back,
            ) == Err::<nat, Seq<char>>("duration is too large"@)
        }),
{
    reveal_strlit("ms");
    reveal_strlit("s");
    reveal_strlit("m");
    let digits = number::decimal_seq(count);
    number::decimal_form_reads_back(count);
    number::parse_of_decimal(count, u64::MAX as nat);
    let none = Seq::<char>::empty();
    lemma_unit(digits, seq!['m', 's'], front, back);
    lemma_unit(digits, seq!['s'], front, back);
    lemma_unit(digits, seq!['m'], front, back);
    lemma_unit(digits, none, front, back);
    assert(digits + none =~= digits);
    assert(text::is_digit(digits[digits.len() - 1]));
    lemma_ends(digits, seq!['m', 's']);
    lemma_ends(digits, seq!['s']);
    lemma_ends(digits, seq!['m']);
    lemma_ends(digits, none);
}

/// How a number with a unit ends.
proof fn lemma_ends(digits: Seq<char>, unit: Seq<char>)
    requires
        digits.len() > 0,
        text::is_digit(digits.last()),
        unit == seq!['m', 's'] || unit == seq!['s'] || unit == seq!['m'] || unit == Seq::<
            char,
        >::empty(),
    ensures
        text::ends(digits + unit, "ms"@) <==> unit == seq!['m', 's'],
        unit.len() < 2 ==> (text::ends(digits + unit, "s"@) <==> unit == seq!['s']),
        unit.len() < 2 ==> (text::ends(digits + unit, "m"@) <==> unit == seq!['m']),
{
    reveal_strlit("ms");
    reveal_strlit("s");
    reveal_strlit("m");
    let all = digits + unit;
    let n = all.len() as int;
    let last = all.subrange(n - 1, n);
    assert(last[0] == all.last());
    assert(all.last() == if unit.len() > 0 {
        unit.last()
    } else {
        digits.last()
    });
    if unit == seq!['s'] {
        assert(last =~= "s"@);
    }
    if unit == seq!['m'] {
        assert(last =~= "m"@);
    }
    if n >= 2 {
        let two = all.subrange(n - 2, n);
        assert(two[1] == all.last());
        assert(two[0] == all[n - 2]);
        if unit == seq!['m', 's'] {
            assert(two =~= "ms"@);
        } else if unit == seq!['s'] {
            assert(all[n - 2] == digits.last());
            assert("ms"@[0] == 'm');
            assert(two[0] != "ms"@[0]);
        } else {
            assert("ms"@[1] == 's');
            assert(two[1] != "ms"@[1]);
        }
    }
}

/// A blank text, a zero, and what is no number are no durations, and it is told why.
pub proof fn other_durations_are_refused(written: Seq<char>)
    ensures
        texts::all_white(written) ==> cli::duration_value(written) == Err::<nat, Seq<char>>(
            "duration cannot be empty"@,
        ),
        cli::duration_value(seq!['0']) == Err::<nat, Seq<char>>(
            "duration must be greater than zero"@,
        ),
        ({
            let input = text::trimmed(written);
            input.len() > 0 && !text::is_digit(input[0]) && input[0] != '+' ==> cli::duration_value(
                written,
            ) == Err::<nat, Seq<char>>(
                "invalid duration '"@ + input
                    + "'; use a positive integer with optional ms, s, or m suffix"@,
            )
        }),
{
    reveal_strlit("ms");
    reveal_strlit("s");
    reveal_strlit("m");
    let none = Seq::<char>::empty();
    if texts::all_white(written) {
        texts::trimming_leaves_the_text(written, none, none);
        assert(written + none + none =~= written);
    }
    let zero = seq!['0'];
    numbers::numbers_are_written_digit_by_digit(0, 0);
    assert(number::decimal_seq(0) =~= zero);
    number::parse_of_decimal(0, u64::MAX as nat);
    texts::trimming_leaves_the_text(none, zero, none);
    assert(none + zero + none =~= zero);
    lemma_ends(zero, none);
    assert(zero + none =~= zero);
    let input = text::trimmed(written);
    if input.len() > 0 && !text::is_digit(input[0]) && input[0] != '+' {
        lemma_no_number(input);
        lemma_no_number(input.take(input.len() - 1));
        if input.len() >= 2 {
            lemma_no_number(input.take(input.len() - 2));
        }
        if input.len() > 1 {
            assert(input.take(input.len() - 1)[0] == input[0]);
        }
        if input.len() > 2 {
            assert(input.take(input.len() - 2)[0] == input[0]);
        }
    }
}

proof fn lemma_no_number(s: Seq<char>)
    ensures
        s.len() == 0 || !text::is_digit(s[0]) && s[0] != '+' ==> number::parse_unsigned(
            s,
            u64::MAX as nat,
        ) is None,
{
}

/// Durations are told in milliseconds below a second, else in seconds, with three digits behind the
/// point where they are not whole.
pub proof fn durations_are_told(seconds: nat, milliseconds: nat, rest: nat)
    requires
        milliseconds < 1000,
        rest < 1_000_000,
    ensures
        ({
            let nanos = seconds * 1_000_000_000 + milliseconds * 1_000_000 + rest;
            &&& seconds == 0 ==> time::duration_text(nanos) == number::decimal_seq(milliseconds)
                + "ms"@
            &&& seconds > 0 && milliseconds == 0 ==> time::duration_text(nanos)
                == number::decimal_seq(seconds) + "s"@
            &&& seconds > 0 && milliseconds > 0 ==> time::duration_text(nanos)
                == number::decimal_seq(seconds) + "."@ + number::padded_seq(milliseconds, 3)
                + "s"@
        }),
{
    let nanos = seconds * 1_000_000_000 + milliseconds * 1_000_000 + rest;
    let count = nanos / 1_000_000;
    assert(count == seconds * 1000 + milliseconds);
    assert(count / 1000 == seconds);
    assert(count % 1000 == milliseconds);
}

/// Work ends when its own time is up, or that of the run where that comes first.
pub proof fn work_ends_with_its_time_or_the_run(now: nat, overall: nat, requested: nat)
    ensures
        time::bounded_deadline(now, overall, requested) <= overall,
        time::bounded_deadline(now, overall, requested) <= now + requested,
        time::bounded_deadline(now, overall, requested) == overall || time::bounded_deadline(
            now,
            overall,
            requested,
        ) == now + requested,
        time::time_between(now, now + requested) == requested,
        time::time_between(now + requested, now) == 0,
        time::millis(1000) == time::seconds(1),
        time::seconds(1) == 1_000_000_000,
{
}

} // verus!
