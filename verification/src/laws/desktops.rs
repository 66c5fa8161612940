//! Desktops and displays: how they are started, what runs on them, and how their ends are told.
use crate::command;
use crate::process::BudgetError;
use crate::result::{ArtifactKind, FailureReason, RunStatus};
use crate::screenshot::app_ref::AppRef;
use crate::screenshot::gnome::AppState;
use crate::screenshot::workspace::OriginView;
use crate::screenshot::ToolRun;
use crate::session::ProcessState;
use crate::verify::Variable;
use crate::laws::texts;
use crate::screenshot::{app_ref, gnome, workspace};
use crate::{capture, display, number, output, process, result, screenshot, session, text, time};
use crate::{tools, verify, vnc};
use vstd::prelude::*;

verus! {

// ---------------------------------------------------------------------------
// Processes

/// A capture is told of the first of its processes that is gone: the desktop, then the app, then
/// the helper. An app whose launcher ended well goes on as long as an instance of it lives.
pub proof fn ended_processes_are_told(
    shell: ProcessState,
    app: AppState,
    helper: Option<bool>,
)
    ensures
        shell matches ProcessState::Unknown(error) ==> gnome::process_fault(shell, app, helper)
            == Some((None::<FailureReason>, error@)),
        shell matches ProcessState::Exited(status) ==> gnome::process_fault(shell, app, helper)
            == Some(
            (
                Some(FailureReason::DisplayExited),
                "GNOME exited during capture with "@ + status@,
            ),
        ),
        shell is Running ==> (app matches AppState::Unknown(error) ==> gnome::process_fault(
            shell,
            app,
            helper,
        ) == Some((None::<FailureReason>, error@))),
        shell is Running ==> (app matches AppState::Detached { success, status, lives } ==> (
        !success || !lives) ==> gnome::process_fault(shell, app, helper) == Some(
            (Some(FailureReason::EarlyExit), "app exited during capture with "@ + status@),
        )),
        shell is Running && (app is Absent || app is Running || (app matches AppState::Detached {
            success: true,
            lives: true,
            ..
        })) && helper == Some(false) ==> gnome::process_fault(shell, app, helper) == Some(
            (
                Some(FailureReason::ScreenshotFailed),
                "native capture helper disconnected"@,
            ),
        ),
        gnome::process_fault(shell, app, helper) is None <==> shell is Running && (app is Absent
            || app is Running || (app matches AppState::Detached {
            success: true,
            lives: true,
            ..
        })) && helper != Some(false),
{
}

/// A run is over where it was cancelled or its deadline has come. Else it has the time until then.
pub proof fn time_runs_out(cancelled: bool, now: nat, deadline: nat, left: nat)
    ensures
        process::time_left(cancelled, now, deadline) == Ok::<nat, BudgetError>(left) <==> !cancelled
            && left > 0 && now + left == deadline,
        cancelled ==> process::time_left(cancelled, now, deadline) == Err::<nat, BudgetError>(
            BudgetError::Cancelled,
        ),
        !cancelled && now >= deadline ==> process::time_left(cancelled, now, deadline) == Err::<
            nat,
            BudgetError,
        >(BudgetError::Elapsed),
        process::budget_message(BudgetError::Cancelled) == "run cancelled"@,
        process::budget_message(BudgetError::Elapsed) == "deadline elapsed"@,
{
}

/// A run of a tool is of use where it came to its end and succeeded. Else it is told what it was
/// for, and what the tool complained of.
pub proof fn runs_of_tools_are_of_use(run: Result<ToolRun, String>, doing: Seq<char>, fine: bool)
    ensures
        screenshot::run_fault(run, doing) is None <==> (run matches Ok(done) && done.success),
        run matches Err(error) ==> screenshot::run_fault(run, doing) == Some(error@),
        run matches Ok(done) ==> !done.success ==> screenshot::run_fault(run, doing) == Some(
            doing + ": "@ + text::utf8_lossy(done.stderr@),
        ),
        gnome::check_fault(run, fine, doing) is None <==> fine && (run matches Ok(done)
            && done.success),
        run matches Err(error) ==> gnome::check_fault(run, fine, doing) == Some(error@),
        run matches Ok(done) ==> !(done.success && fine) ==> gnome::check_fault(run, fine, doing)
            == Some(doing),
        run matches Ok(done) ==> gnome::output_text(run) == text::utf8_lossy(done.stdout@),
{
}

// ---------------------------------------------------------------------------
// GNOME

/// A desktop of another version than 48 is refused with what it says of itself.
pub proof fn only_one_version_of_the_desktop_is_used(stdout: Seq<u8>)
    ensures
        ({
            let told = text::trimmed(vstd::utf8::decode_utf8(stdout));
            &&& gnome::version_fault(stdout) is None <==> vstd::utf8::valid_utf8(stdout) && exists|
                rest: Seq<char>,
            | told == #[trigger] ("GNOME Shell 48."@ + rest)
            &&& vstd::utf8::valid_utf8(stdout) && gnome::version_fault(stdout) is Some
                ==> gnome::version_fault(stdout) == Some(
                "screenshot backend requires GNOME Shell 48; found "@ + told,
            )
            &&& !vstd::utf8::valid_utf8(stdout) ==> gnome::version_fault(stdout) == Some(
                text::utf8_complaint(stdout),
            )
        }),
{
    let told = text::trimmed(vstd::utf8::decode_utf8(stdout));
    let prefix = "GNOME Shell 48."@;
    if text::begins(told, prefix) {
        texts::what_holds_a_text_is_made_of_it(told, prefix);
        assert(told == prefix + told.skip(prefix.len() as int));
    }
    if exists|rest: Seq<char>| told == #[trigger] (prefix + rest) {
        let rest = choose|rest: Seq<char>| told == #[trigger] (prefix + rest);
        texts::texts_occur_in_what_they_make(Seq::empty(), prefix, rest);
    }
}

/// A listing has a line where the line stands in it, and loosely where white space is around it.
pub proof fn listings_have_lines(listing: Seq<char>, wanted: Seq<char>)
    ensures
        gnome::lists(listing, wanted) <==> exists|i: int|
            0 <= i < text::lines_of(listing).len() && #[trigger] text::lines_of(listing)[i]
                == wanted,
        gnome::lists(listing, wanted) && text::trimmed(wanted) == wanted ==> gnome::lists_loosely(
            listing,
            wanted,
        ),
        gnome::lists_loosely(listing, wanted) <==> exists|i: int|
            0 <= i < text::lines_of(listing).len() && text::trimmed(
                #[trigger] text::lines_of(listing)[i],
            ) == wanted,
{
}

/// What a capture needs on its machine, and how it starts its desktop and its app.
pub proof fn captures_start_their_desktop(app: AppRef, args: Seq<Seq<char>>)
    ensures
        gnome::capture_tools() == seq![
            "gnome-shell"@,
            "python3"@,
            "gsettings"@,
            "flatpak"@,
            "dbus-run-session"@,
            "gnome-keyring-daemon"@,
            "fusermount3"@,
            "tesseract"@,
            "convert"@,
            "identify"@,
            "locale"@,
        ],
        gnome::session_script()
            == "printf %s \"$DBUS_SESSION_BUS_ADDRESS\" > \"$1\"; exec gnome-shell --headless --wayland --virtual-monitor=1280x900 --no-x11"@,
        gnome::app_arguments(app, args).len() == 11 + args.len(),
        gnome::app_arguments(app, args)[0] == "run"@,
        gnome::app_arguments(app, args)[1] == "--user"@,
        gnome::app_arguments(app, args)[2] == "--arch="@ + app.arch@,
        gnome::app_arguments(app, args)[3] == "--branch="@ + app.branch@,
        gnome::app_arguments(app, args)[4] == "--env=GDK_BACKEND=wayland"@,
        gnome::app_arguments(app, args)[5] == "--env=QT_QPA_PLATFORM=wayland"@,
        gnome::app_arguments(app, args)[6] == "--env=SDL_VIDEODRIVER=wayland"@,
        gnome::app_arguments(app, args)[7] == "--env=MOZ_ENABLE_WAYLAND=1"@,
        gnome::app_arguments(app, args)[8] == "--env=GTK_A11Y=atspi"@,
        gnome::app_arguments(app, args)[9] == "--env=QT_LINUX_ACCESSIBILITY_ALWAYS_ON=1"@,
        gnome::app_arguments(app, args)[10] == app.id@,
        gnome::app_arguments(app, args).skip(11) == args,
{
    assert(gnome::app_arguments(app, args).skip(11) =~= args);
}

/// The environment of a capture: English, on Wayland, drawn in software, and with all files below
/// its own home.
pub proof fn captures_run_in_their_own_home()
    ensures
        workspace::directories() == seq![
            "data"@,
            "cache"@,
            "config"@,
            "state"@,
            "runtime"@,
            ".var/app"@,
        ],
        workspace::environment().contains(("HOME"@, OriginView::Home)),
        workspace::environment().contains(
            ("PATH"@, OriginView::Inherited("/usr/local/bin:/usr/bin:/bin"@)),
        ),
        workspace::environment().contains(("LANG"@, OriginView::Fixed("en_US.UTF-8"@))),
        workspace::environment().contains(("LC_ALL"@, OriginView::Fixed("en_US.UTF-8"@))),
        workspace::environment().contains(("LANGUAGE"@, OriginView::Fixed("en"@))),
        workspace::environment().contains(("XDG_CURRENT_DESKTOP"@, OriginView::Fixed("GNOME"@))),
        workspace::environment().contains(("XDG_SESSION_TYPE"@, OriginView::Fixed("wayland"@))),
        workspace::environment().contains(
            ("XDG_DATA_DIRS"@, OriginView::Fixed("/usr/local/share:/usr/share"@)),
        ),
        workspace::environment().contains(("GSETTINGS_BACKEND"@, OriginView::Fixed("keyfile"@))),
        workspace::environment().contains(("LIBGL_ALWAYS_SOFTWARE"@, OriginView::Fixed("1"@))),
        workspace::environment().contains(("GSK_RENDERER"@, OriginView::Fixed("cairo"@))),
        workspace::environment().contains(("GTK_A11Y"@, OriginView::Fixed("atspi"@))),
        workspace::environment().contains(
            ("QT_LINUX_ACCESSIBILITY_ALWAYS_ON"@, OriginView::Fixed("1"@)),
        ),
        workspace::environment().contains(("QT_QPA_PLATFORM"@, OriginView::Fixed("wayland"@))),
        workspace::environment().contains(("GDK_BACKEND"@, OriginView::Fixed("wayland"@))),
        workspace::environment().contains(("WAYLAND_DISPLAY"@, OriginView::Fixed("wayland-0"@))),
        workspace::environment().contains(("XDG_DATA_HOME"@, OriginView::Below("data"@))),
        workspace::environment().contains(("XDG_CACHE_HOME"@, OriginView::Below("cache"@))),
        workspace::environment().contains(("XDG_CONFIG_HOME"@, OriginView::Below("config"@))),
        workspace::environment().contains(("XDG_STATE_HOME"@, OriginView::Below("state"@))),
        workspace::environment().contains(("XDG_RUNTIME_DIR"@, OriginView::Below("runtime"@))),
        workspace::environment().len() == 21,
{
    let all = workspace::environment();
    assert(all[0] == ("PATH"@, OriginView::Inherited("/usr/local/bin:/usr/bin:/bin"@)));
    assert(all[1] == ("HOME"@, OriginView::Home));
    assert(all[2] == ("LANG"@, OriginView::Fixed("en_US.UTF-8"@)));
    assert(all[3] == ("LC_ALL"@, OriginView::Fixed("en_US.UTF-8"@)));
    assert(all[4] == ("LANGUAGE"@, OriginView::Fixed("en"@)));
    assert(all[5] == ("XDG_CURRENT_DESKTOP"@, OriginView::Fixed("GNOME"@)));
    assert(all[6] == ("XDG_SESSION_TYPE"@, OriginView::Fixed("wayland"@)));
    assert(all[7] == ("XDG_DATA_DIRS"@, OriginView::Fixed("/usr/local/share:/usr/share"@)));
    assert(all[8] == ("GSETTINGS_BACKEND"@, OriginView::Fixed("keyfile"@)));
    assert(all[9] == ("LIBGL_ALWAYS_SOFTWARE"@, OriginView::Fixed("1"@)));
    assert(all[10] == ("GSK_RENDERER"@, OriginView::Fixed("cairo"@)));
    assert(all[11] == ("GTK_A11Y"@, OriginView::Fixed("atspi"@)));
    assert(all[12] == ("QT_LINUX_ACCESSIBILITY_ALWAYS_ON"@, OriginView::Fixed("1"@)));
    assert(all[13] == ("QT_QPA_PLATFORM"@, OriginView::Fixed("wayland"@)));
    assert(all[14] == ("GDK_BACKEND"@, OriginView::Fixed("wayland"@)));
    assert(all[15] == ("WAYLAND_DISPLAY"@, OriginView::Fixed("wayland-0"@)));
    assert(all[16] == ("XDG_DATA_HOME"@, OriginView::Below("data"@)));
    assert(all[17] == ("XDG_CACHE_HOME"@, OriginView::Below("cache"@)));
    assert(all[18] == ("XDG_CONFIG_HOME"@, OriginView::Below("config"@)));
    assert(all[19] == ("XDG_STATE_HOME"@, OriginView::Below("state"@)));
    assert(all[20] == ("XDG_RUNTIME_DIR"@, OriginView::Below("runtime"@)));
}

// ---------------------------------------------------------------------------
// Weston

/// How the display of a verification is started, and what runs on it.
pub proof fn verifications_start_their_display(
    backend: Seq<char>,
    name: Seq<char>,
    port: nat,
    app_ref: Seq<char>,
)
    ensures
        display::wayland_display() == "flatpak-smoke-wayland"@,
        display::backends() == seq!["vnc"@, "vnc-backend.so"@],
        display::display_arguments(backend, name, port) == seq![
            "--backend="@ + backend,
            "--socket="@ + name,
            "--address=127.0.0.1"@,
            "--port="@ + number::decimal_seq(port),
            "--width=1280"@,
            "--height=720"@,
            "--idle-time=0"@,
            "--debug"@,
            "--disable-transport-layer-security"@,
        ],
        display::service_script()
            == "\nset -eu\nprintf '\\n' | gnome-keyring-daemon --unlock --components=secrets >/dev/null\nexec flatpak run \"$@\"\n"@,
        display::app_arguments(app_ref) == seq![
            "--"@,
            "sh"@,
            "-c"@,
            display::service_script(),
            "flatpak-smoke-session"@,
            "--env=GDK_BACKEND=wayland"@,
            "--env=QT_QPA_PLATFORM=wayland"@,
            "--env=SDL_VIDEODRIVER=wayland"@,
            "--env=CLUTTER_BACKEND=wayland"@,
            "--env=MOZ_ENABLE_WAYLAND=1"@,
            "--env=XDG_SESSION_TYPE=wayland"@,
            "--env=GSK_RENDERER=cairo"@,
            "--env=GTK_A11Y=none"@,
            "--env=LIBGL_ALWAYS_SOFTWARE=1"@,
            display::run_target(app_ref),
        ],
        verify::weston_settings()
            == "[core]\nidle-time=0\nrenderer=pixman\n\n[shell]\nlocking=false\npanel-position=none\nbackground-color=0xff202020\n"@,
        verify::portal_settings()
            == "[preferred]\ndefault=gtk\norg.freedesktop.impl.portal.Secret=gnome-keyring\n"@,
        verify::isolated_dirs() == seq![
            ("XDG_DATA_HOME"@, "data"@),
            ("XDG_CACHE_HOME"@, "cache"@),
            ("XDG_CONFIG_HOME"@, "config"@),
            ("XDG_STATE_HOME"@, "state"@),
            ("XDG_RUNTIME_DIR"@, "runtime"@),
        ],
{
}

proof fn lemma_four_parts(
    a: Seq<char>,
    b: Seq<char>,
    c: Seq<char>,
    d: Seq<char>,
)
    requires
        !a.contains('/'),
        !b.contains('/'),
        !c.contains('/'),
        !d.contains('/'),
    ensures
        text::split_on(
            a + seq!['/'] + (b + seq!['/'] + (c + seq!['/'] + d)),
            '/',
        ) == seq![a, b, c, d],
{
    texts::separators_part_pieces(c, '/', d);
    texts::separators_part_pieces(d, '/', d);
    texts::separators_part_pieces(b, '/', c + seq!['/'] + d);
    texts::separators_part_pieces(a, '/', b + seq!['/'] + (c + seq!['/'] + d));
    assert(seq![a] + (seq![b] + (seq![c] + seq![d])) =~= seq![a, b, c, d]);
}

/// An app is run by its id and its branch, which are taken from its ref. What is no full ref is run
/// as it stands.
pub proof fn refs_are_run_by_id_and_branch(
    id: Seq<char>,
    arch: Seq<char>,
    branch: Seq<char>,
    other: Seq<char>,
)
    requires
        !id.contains('/'),
        !arch.contains('/'),
        !branch.contains('/'),
    ensures
        display::run_target("app/"@ + id + "/"@ + arch + "/"@ + branch) == id + "//"@ + branch,
        text::split_on(other, '/').len() != 4 || text::split_on(other, '/')[0] != "app"@
            ==> display::run_target(other) == other,
{
    reveal_strlit("app/");
    reveal_strlit("app");
    reveal_strlit("/");
    assert(!"app"@.contains('/'));
    lemma_four_parts("app"@, id, arch, branch);
    assert("app/"@ + id + "/"@ + arch + "/"@ + branch =~= "app"@ + seq!['/'] + (id + seq!['/'] + (
    arch + seq!['/'] + branch)));
}

/// A ref of an app has its id, its architecture and its branch between slashes, each made of plain
/// characters. The id has three names or more, with dots between them.
pub proof fn refs_have_three_parts(id: Seq<char>, arch: Seq<char>, branch: Seq<char>)
    requires
        !id.contains('/'),
        !arch.contains('/'),
        !branch.contains('/'),
    ensures
        ({
            let written = app_ref::written_ref(id, arch, branch);
            let names = text::split_on(id, '.');
            let plain = is_plain(id) && is_plain(arch) && is_plain(branch);
            &&& written == "app/"@ + id + "/"@ + arch + "/"@ + branch
            &&& !plain ==> app_ref::ref_fault(written) == Some(
                "expected app/ID/ARCH/BRANCH ref"@,
            )
            &&& plain && (names.len() < 3 || exists|i: int|
                0 <= i < names.len() && (#[trigger] names[i]).len() == 0) ==> app_ref::ref_fault(
                written,
            ) == Some("invalid application ID"@)
            &&& plain && names.len() >= 3 && (forall|i: int|
                0 <= i < names.len() ==> (#[trigger] names[i]).len() > 0) ==> app_ref::ref_fault(
                written,
            ) is None
        }),
{
    reveal_strlit("app/");
    reveal_strlit("app");
    reveal_strlit("/");
    assert(!"app"@.contains('/'));
    lemma_four_parts("app"@, id, arch, branch);
    let written = app_ref::written_ref(id, arch, branch);
    assert(written =~= "app"@ + seq!['/'] + (id + seq!['/'] + (arch + seq!['/'] + branch)));
    lemma_plain(id);
    lemma_plain(arch);
    lemma_plain(branch);
}

/// A text of letters and digits of ASCII, dots, dashes and underscores, that does not begin with a
/// dash and is neither one dot nor two.
pub open spec fn is_plain(part: Seq<char>) -> bool {
    &&& part.len() > 0
    &&& part[0] != '-'
    &&& part != seq!['.']
    &&& part != seq!['.', '.']
    &&& forall|i: int|
        0 <= i < part.len() ==> {
            ||| 'a' <= #[trigger] part[i] <= 'z'
            ||| 'A' <= part[i] <= 'Z'
            ||| '0' <= part[i] <= '9'
            ||| part[i] == '.'
            ||| part[i] == '_'
            ||| part[i] == '-'
        }
}

proof fn lemma_plain(part: Seq<char>)
    ensures
        app_ref::part_ok(part) == is_plain(part),
{
    reveal_strlit("-");
    reveal_strlit(".");
    reveal_strlit("..");
    assert("."@ =~= seq!['.']);
    assert(".."@ =~= seq!['.', '.']);
    if part.len() > 0 {
        assert(part.subrange(0, 1)[0] == part[0]);
        if part[0] == '-' {
            assert(part.subrange(0, 1) =~= "-"@);
        }
    }
    if is_plain(part) {
        assert forall|i: int| 0 <= i < part.len() implies app_ref::part_char(
            #[trigger] part[i],
        ) by {}
    }
    if app_ref::part_ok(part) {
        assert forall|i: int| 0 <= i < part.len() implies {
            ||| 'a' <= #[trigger] part[i] <= 'z'
            ||| 'A' <= part[i] <= 'Z'
            ||| '0' <= part[i] <= '9'
            ||| part[i] == '.'
            ||| part[i] == '_'
            ||| part[i] == '-'
        } by {
            assert(app_ref::part_char(part[i]));
        }
    }
}

/// What is no ref of four parts that begins with `app` is told as such.
pub proof fn other_refs_are_refused(written: Seq<char>)
    requires
        text::split_on(written, '/').len() != 4 || text::split_on(written, '/')[0] != "app"@,
    ensures
        app_ref::ref_fault(written) == Some("expected app/ID/ARCH/BRANCH ref"@),
{
}

/// The first value that is set counts, and where none is, the usual one.
pub proof fn the_first_value_counts(
    values: Seq<Option<Seq<char>>>,
    otherwise: Seq<char>,
    k: int,
)
    requires
        0 <= k <= values.len(),
        forall|i: int| 0 <= i < k ==> #[trigger] values[i] is None,
        k < values.len() ==> values[k] is Some,
    ensures
        display::first_set(values, otherwise) == if k < values.len() {
            values[k]->0
        } else {
            otherwise
        },
    decreases values.len(),
{
    if values.len() > 0 && k > 0 {
        assert(values[0] is None);
        let rest = values.skip(1);
        assert forall|i: int| 0 <= i < k - 1 implies #[trigger] rest[i] is None by {
            assert(rest[i] == values[i + 1]);
        }
        the_first_value_counts(rest, otherwise, k - 1);
    }
}

/// The first variable of a name has its value.
pub proof fn variables_have_their_first_value(env: Seq<Variable>, name: Seq<char>, k: int)
    requires
        0 <= k <= env.len(),
        forall|i: int| 0 <= i < k ==> (#[trigger] env[i]).name@ != name,
        k < env.len() ==> env[k].name@ == name,
    ensures
        verify::value_of(env, name) == if k < env.len() {
            Some(env[k].value@)
        } else {
            None
        },
    decreases env.len(),
{
    if env.len() > 0 && k > 0 {
        assert(env[0].name@ != name);
        let rest = env.skip(1);
        assert forall|i: int| 0 <= i < k - 1 implies (#[trigger] rest[i]).name@ != name by {
            assert(rest[i] == env[i + 1]);
        }
        variables_have_their_first_value(rest, name, k - 1);
    }
}

/// A screenshot of a verification is named by one component of a path that ends in `.png` and does
/// not begin with a dash, and what is wrong is told, the first thing first.
pub proof fn screenshots_have_names_of_files(name: Seq<char>)
    ensures
        verify::screenshot_name_fault(name) is None <==> {
            &&& text::trimmed(name).len() > 0
            &&& output::component_count(name) == 1
            &&& name[0] != '-'
            &&& exists|stem: Seq<char>| name == #[trigger] (stem + ".png"@)
        },
        texts::all_white(name) ==> verify::screenshot_name_fault(name) == Some(
            "--screenshot-name cannot be empty"@,
        ),
        text::trimmed(name).len() > 0 && output::component_count(name) != 1
            ==> verify::screenshot_name_fault(name) == Some(
            "--screenshot-name must be a filename, not a path"@,
        ),
        text::trimmed(name).len() > 0 && output::component_count(name) == 1 && name[0] == '-'
            ==> verify::screenshot_name_fault(name) == Some(
            "--screenshot-name cannot start with '-'"@,
        ),
{
    lemma_dash(name);
    lemma_white(name);
    lemma_suffix(name);
}

proof fn lemma_dash(name: Seq<char>)
    ensures
        text::begins(name, "-"@) <==> name.len() > 0 && name[0] == '-',
{
    reveal_strlit("-");
    if name.len() > 0 {
        assert(name.subrange(0, 1)[0] == name[0]);
        if name[0] == '-' {
            assert(name.subrange(0, 1) =~= "-"@);
        }
    }
}

proof fn lemma_white(name: Seq<char>)
    ensures
        texts::all_white(name) ==> text::trimmed(name).len() == 0,
        name.len() == 0 ==> text::trimmed(name).len() == 0,
{
    let none = Seq::<char>::empty();
    if texts::all_white(name) {
        texts::trimming_leaves_the_text(name, none, none);
        assert(name + none + none =~= name);
    }
}

proof fn lemma_suffix(name: Seq<char>)
    ensures
        text::ends(name, ".png"@) <==> exists|stem: Seq<char>| name == #[trigger] (stem
            + ".png"@),
{
    texts::what_holds_a_text_is_made_of_it(name, ".png"@);
    if exists|stem: Seq<char>| name == #[trigger] (stem + ".png"@) {
        let stem = choose|stem: Seq<char>| name == #[trigger] (stem + ".png"@);
        texts::texts_occur_in_what_they_make(stem, ".png"@, Seq::empty());
    }
    if text::ends(name, ".png"@) {
        let stem = name.take(name.len() - ".png"@.len());
        assert(name == stem + ".png"@);
    }
}

/// A ref to verify may be anything but blank or with a dash in front.
pub proof fn refs_to_verify_say_something(app_ref: Seq<char>)
    ensures
        verify::app_ref_fault(app_ref) is None <==> text::trimmed(app_ref).len() > 0 && app_ref[0]
            != '-',
        texts::all_white(app_ref) ==> verify::app_ref_fault(app_ref) == Some(
            "app ref cannot be empty"@,
        ),
        text::trimmed(app_ref).len() > 0 && app_ref[0] == '-' ==> verify::app_ref_fault(app_ref)
            == Some("app ref cannot start with '-'"@),
{
    lemma_dash(app_ref);
    lemma_white(app_ref);
}

// ---------------------------------------------------------------------------
// Keyrings

/// The arguments of a process, each of which a zero ends, are read back.
pub proof fn arguments_are_listed(arguments: Seq<Seq<u8>>)
    requires
        forall|i: int|
            0 <= i < arguments.len() ==> (#[trigger] arguments[i]).len() > 0
                && !arguments[i].contains(0u8),
    ensures
        display::listed_arguments(ended(arguments)) == arguments,
    decreases arguments.len(),
{
    lemma_ended(arguments);
    let none = Seq::<u8>::empty();
    let all = arguments.push(none);
    assert(all.drop_last() =~= arguments);
    assert(all.last() == none);
    lemma_full(arguments);
}

/// Arguments with a zero behind each.
pub open spec fn ended(arguments: Seq<Seq<u8>>) -> Seq<u8>
    decreases arguments.len(),
{
    if arguments.len() == 0 {
        Seq::empty()
    } else {
        ended(arguments.drop_last()) + arguments.last() + seq![0u8]
    }
}

proof fn lemma_ended(arguments: Seq<Seq<u8>>)
    requires
        forall|i: int| 0 <= i < arguments.len() ==> !(#[trigger] arguments[i]).contains(0u8),
    ensures
        text::split_on(ended(arguments), 0u8) == arguments.push(Seq::<u8>::empty()),
{
    let none = Seq::<u8>::empty();
    let all = arguments.push(none);
    assert forall|i: int| 0 <= i < all.len() implies !(#[trigger] all[i]).contains(0u8) by {
        if i < arguments.len() {
            assert(all[i] == arguments[i]);
        }
    }
    text::lemma_join_split(all, 0u8);
    lemma_ended_joined(arguments);
}

proof fn lemma_ended_joined(arguments: Seq<Seq<u8>>)
    ensures
        text::join_seq(arguments.push(Seq::<u8>::empty()), seq![0u8]) == ended(arguments),
    decreases arguments.len(),
{
    let none = Seq::<u8>::empty();
    let all = arguments.push(none);
    assert(all.drop_last() =~= arguments);
    if arguments.len() == 0 {
        assert(text::join_seq(all, seq![0u8]) =~= none);
    } else {
        let less = arguments.drop_last();
        lemma_ended_joined(less);
        let joined = text::join_seq(arguments, seq![0u8]);
        if less.len() == 0 {
            assert(arguments =~= seq![arguments.last()]);
            assert(joined =~= arguments.last());
            assert(ended(less) =~= none);
        } else {
            assert(less.push(none).drop_last() =~= less);
            assert(text::join_seq(less.push(none), seq![0u8]) =~= text::join_seq(less, seq![0u8])
                + seq![0u8]);
            assert(joined =~= text::join_seq(less, seq![0u8]) + seq![0u8] + arguments.last());
        }
        assert(joined =~= ended(less) + arguments.last());
        assert(text::join_seq(all, seq![0u8]) =~= ended(arguments));
    }
}

proof fn lemma_full(arguments: Seq<Seq<u8>>)
    requires
        forall|i: int| 0 <= i < arguments.len() ==> (#[trigger] arguments[i]).len() > 0,
    ensures
        display::full_pieces(arguments) == arguments,
        display::full_pieces(arguments.push(Seq::<u8>::empty())) == arguments,
    decreases arguments.len(),
{
    let all = arguments.push(Seq::<u8>::empty());
    assert(all.drop_last() =~= arguments);
    if arguments.len() > 0 {
        let less = arguments.drop_last();
        assert forall|i: int| 0 <= i < less.len() implies (#[trigger] less[i]).len() > 0 by {
            assert(less[i] == arguments[i]);
        }
        lemma_full(less);
        assert(arguments[arguments.len() - 1].len() > 0);
        assert(less.push(arguments.last()) =~= arguments);
    } else {
        assert(arguments =~= Seq::empty());
    }
}

/// A keyring of the run is known by its program and by two of its arguments.
pub proof fn keyrings_are_known_by_their_arguments(cmdline: Seq<u8>)
    ensures
        ({
            let arguments = display::listed_arguments(cmdline);
            display::unlocks_keyring(cmdline) <==> {
                &&& arguments.len() > 0
                &&& text::split_on(arguments[0], 47u8).last() == vstd::utf8::encode_utf8(
                    "gnome-keyring-daemon"@,
                )
                &&& exists|i: int|
                    1 <= i < arguments.len() && #[trigger] arguments[i]
                        == vstd::utf8::encode_utf8("--unlock"@)
                &&& exists|i: int|
                    1 <= i < arguments.len() && #[trigger] arguments[i]
                        == vstd::utf8::encode_utf8("--components=secrets"@)
            }
        }),
{
    let arguments = display::listed_arguments(cmdline);
    if arguments.len() > 0 {
        lemma_behind_the_first(arguments, vstd::utf8::encode_utf8("--unlock"@));
        lemma_behind_the_first(arguments, vstd::utf8::encode_utf8("--components=secrets"@));
    }
}

proof fn lemma_behind_the_first(arguments: Seq<Seq<u8>>, wanted: Seq<u8>)
    requires
        arguments.len() > 0,
    ensures
        arguments.skip(1).contains(wanted) <==> exists|i: int|
            1 <= i < arguments.len() && #[trigger] arguments[i] == wanted,
{
    let rest = arguments.skip(1);
    if rest.contains(wanted) {
        let i = choose|i: int| 0 <= i < rest.len() && rest[i] == wanted;
        assert(arguments[i + 1] == wanted);
    }
    if exists|i: int| 1 <= i < arguments.len() && #[trigger] arguments[i] == wanted {
        let i = choose|i: int| 1 <= i < arguments.len() && #[trigger] arguments[i] == wanted;
        assert(rest[i - 1] == wanted);
    }
}

// ---------------------------------------------------------------------------
// Tools and words

/// The tools that a verification needs, and what is told of those that are missing: their names, in
/// order, with commas between them.
pub proof fn missing_tools_are_told(names: Seq<Seq<char>>, found: Seq<bool>, last: Seq<char>)
    requires
        found.len() > names.len(),
    ensures
        tools::tools_needed() == seq![
            "flatpak"@,
            "dbus-run-session"@,
            "gnome-keyring-daemon"@,
            "weston"@,
            "tesseract"@,
            "compare"@,
            "convert"@,
            "identify"@,
        ],
        tools::not_found(names.push(last), found) == if found[names.len() as int] {
            tools::not_found(names, found)
        } else {
            tools::not_found(names, found).push(last)
        },
        tools::not_found(Seq::empty(), found) == Seq::<Seq<char>>::empty(),
        tools::missing_message(names) == "missing required tool(s): "@ + text::join_seq(
            names,
            ", "@,
        ),
{
    assert(names.push(last).drop_last() =~= names);
}

/// Lists are put together with the separator between neighbours, and nowhere else.
pub proof fn lists_are_joined(parts: Seq<Seq<char>>, last: Seq<char>, separator: Seq<char>)
    ensures
        text::join_seq(Seq::<Seq<char>>::empty(), separator) == Seq::<char>::empty(),
        text::join_seq(seq![last], separator) == last,
        parts.len() > 0 ==> text::join_seq(parts.push(last), separator) == text::join_seq(
            parts,
            separator,
        ) + separator + last,
{
    assert(text::join_seq(seq![last], separator) =~= last);
    assert(parts.push(last).drop_last() =~= parts);
}

/// A file may be executed where anyone may execute it.
pub proof fn files_may_be_executed(mode: u32)
    ensures
        tools::may_execute(mode) <==> mode & 0o100u32 != 0 || mode & 0o010u32 != 0 || mode
            & 0o001u32 != 0,
{
    assert((mode & 0o111u32 != 0) <==> (mode & 0o100u32 != 0 || mode & 0o010u32 != 0 || mode
        & 0o001u32 != 0)) by (bit_vector);
}

/// The words for what a result says.
pub proof fn results_have_words()
    ensures
        result::status_name(RunStatus::Passed) == "passed"@,
        result::status_name(RunStatus::Failed) == "failed"@,
        result::kind_name(ArtifactKind::Bundle) == "bundle"@,
        result::kind_name(ArtifactKind::Repo) == "repo"@,
        result::reason_name(FailureReason::InstallFailed) == "install_failed"@,
        result::reason_name(FailureReason::DependencyFailed) == "dependency_failed"@,
        result::reason_name(FailureReason::DisplayStartFailed) == "display_start_failed"@,
        result::reason_name(FailureReason::DisplayExited) == "display_exited"@,
        result::reason_name(FailureReason::LaunchFailed) == "launch_failed"@,
        result::reason_name(FailureReason::WindowTimeout) == "window_timeout"@,
        result::reason_name(FailureReason::EarlyExit) == "early_exit"@,
        result::reason_name(FailureReason::ScreenshotFailed) == "screenshot_failed"@,
        result::reason_name(FailureReason::AppErrorWindow) == "app_error_window"@,
        result::reason_name(FailureReason::InternalError) == "internal_error"@,
{
}

/// What is logged of a command: its line, how it ended, and what it wrote on each stream, unless
/// that is blank.
pub proof fn commands_are_logged(
    program: Seq<char>,
    args: Seq<Seq<char>>,
    status: Seq<char>,
    stdout: Seq<char>,
    stderr: Seq<char>,
    timeout: nat,
)
    ensures
        command::command_line(program, args) == "$ "@ + program + " "@ + text::join_seq(args, " "@),
        text::trimmed(stdout).len() > 0 && text::trimmed(stderr).len() > 0
            ==> command::status_entries(program, status, stdout, stderr) == seq![
            program + " exited with "@ + status,
            program + " stdout:\n"@ + text::trimmed_end(stdout),
            program + " stderr:\n"@ + text::trimmed_end(stderr),
        ],
        text::trimmed(stdout).len() > 0 && text::trimmed(stderr).len() == 0
            ==> command::status_entries(program, status, stdout, stderr) == seq![
            program + " exited with "@ + status,
            program + " stdout:\n"@ + text::trimmed_end(stdout),
        ],
        text::trimmed(stdout).len() == 0 && text::trimmed(stderr).len() > 0
            ==> command::status_entries(program, status, stdout, stderr) == seq![
            program + " exited with "@ + status,
            program + " stderr:\n"@ + text::trimmed_end(stderr),
        ],
        text::trimmed(stdout).len() == 0 && text::trimmed(stderr).len() == 0
            ==> command::status_entries(program, status, stdout, stderr) == seq![
            program + " exited with "@ + status,
        ],
        text::trimmed(stdout).len() > 0 && text::trimmed(stderr).len() > 0
            ==> command::timeout_entries(program, timeout, stdout, stderr) == seq![
            program + " timed out after "@ + time::duration_text(timeout),
            program + " stdout before timeout:\n"@ + text::trimmed_end(stdout),
            program + " stderr before timeout:\n"@ + text::trimmed_end(stderr),
        ],
        text::trimmed(stdout).len() > 0 && text::trimmed(stderr).len() == 0
            ==> command::timeout_entries(program, timeout, stdout, stderr) == seq![
            program + " timed out after "@ + time::duration_text(timeout),
            program + " stdout before timeout:\n"@ + text::trimmed_end(stdout),
        ],
        text::trimmed(stdout).len() == 0 && text::trimmed(stderr).len() > 0
            ==> command::timeout_entries(program, timeout, stdout, stderr) == seq![
            program + " timed out after "@ + time::duration_text(timeout),
            program + " stderr before timeout:\n"@ + text::trimmed_end(stderr),
        ],
        text::trimmed(stdout).len() == 0 && text::trimmed(stderr).len() == 0
            ==> command::timeout_entries(program, timeout, stdout, stderr) == seq![
            program + " timed out after "@ + time::duration_text(timeout),
        ],
        command::timeout_message(program, timeout) == "command '"@ + program
            + "' timed out after "@ + time::duration_text(timeout),
{
    let ended = command::status_entries(program, status, stdout, stderr);
    let late = command::timeout_entries(program, timeout, stdout, stderr);
    let first = program + " exited with "@ + status;
    let first_late = program + " timed out after "@ + time::duration_text(timeout);
    let out = program + " stdout:\n"@ + text::trimmed_end(stdout);
    let err = program + " stderr:\n"@ + text::trimmed_end(stderr);
    let out_late = program + " stdout before timeout:\n"@ + text::trimmed_end(stdout);
    let err_late = program + " stderr before timeout:\n"@ + text::trimmed_end(stderr);
    if text::trimmed(stdout).len() > 0 {
        if text::trimmed(stderr).len() > 0 {
            assert(ended =~= seq![first, out, err]);
            assert(late =~= seq![first_late, out_late, err_late]);
        } else {
            assert(ended =~= seq![first, out]);
            assert(late =~= seq![first_late, out_late]);
        }
    } else {
        if text::trimmed(stderr).len() > 0 {
            assert(ended =~= seq![first, err]);
            assert(late =~= seq![first_late, err_late]);
        } else {
            assert(ended =~= seq![first]);
            assert(late =~= seq![first_late]);
        }
    }
}

/// What is told of waits whose time is up: the whole seconds that they took, and the last thing that
/// went wrong, without white space around it.
pub proof fn waits_tell_their_seconds(
    seconds: nat,
    rest: nat,
    label: Seq<char>,
    last: Option<Seq<char>>,
)
    requires
        rest < 1_000_000_000,
    ensures
        ({
            let timeout = seconds * 1_000_000_000 + rest;
            let shown = number::decimal_seq(seconds) + "s"@;
            let told = text::trimmed(
                match last {
                    Some(error) => error,
                    None => "unknown error"@,
                },
            );
            &&& capture::frame_timeout(timeout)
                == "no persistent visible app content appeared within "@ + shown
            &&& capture::capture_timeout(timeout, last) == "failed to capture screenshot within "@
                + shown + ": "@ + told
            &&& capture::change_timeout(label, timeout, last)
                == "failed to capture screenshot after clicking '"@ + label + "' within "@ + shown
                + ": "@ + told
            &&& display::not_ready(timeout, last)
                == "Weston Wayland display did not become ready within "@ + number::decimal_seq(
                seconds,
            ) + "s: "@ + text::trimmed(
                match last {
                    Some(error) => error,
                    None => "unknown readiness error"@,
                },
            )
        }),
{
    let timeout = seconds * 1_000_000_000 + rest;
    assert(timeout / 1_000_000_000 == seconds);
}

/// The first look that finds content is logged, and so is the one with which it has stayed.
pub proof fn looks_are_logged(seen: capture::FrameObservation, visible: bool, ready: bool)
    ensures
        visible && seen.samples == 0 && !ready ==> capture::frame_log(seen, visible, ready) == seq![
            "first visible sample; observing app content"@,
        ],
        (!visible || seen.samples > 0) && ready ==> capture::frame_log(seen, visible, ready)
            == seq!["visible app content persisted for at least 750ms across at least 3 samples"@],
        (!visible || seen.samples > 0) && !ready ==> capture::frame_log(seen, visible, ready)
            == Seq::<Seq<char>>::empty(),
{
    let log = capture::frame_log(seen, visible, ready);
    if visible && seen.samples == 0 && !ready {
        assert(log =~= seq!["first visible sample; observing app content"@]);
    } else if (!visible || seen.samples > 0) && ready {
        assert(log =~= seq![
            "visible app content persisted for at least 750ms across at least 3 samples"@,
        ]);
    } else if !ready {
        assert(log =~= Seq::empty());
    }
}

/// The screenshots of a session: the first under its own name, and one after each click, with its
/// number and what was clicked.
pub proof fn screenshots_of_a_session_have_paths(
    name: Seq<char>,
    clicks: Seq<Seq<char>>,
    k: int,
)
    requires
        0 < k <= clicks.len(),
    ensures
        session::session_path(name, clicks, 0) == "screenshots/"@ + name,
        session::session_path(name, clicks, k) == "screenshots/"@ + (number::padded_seq(k as nat, 3)
            + "-after-click-"@ + session::slug(clicks[k - 1]) + ".png"@),
        session::session_paths(name, clicks, clicks.len() + 1).len() == clicks.len() + 1,
        session::session_paths(name, clicks, clicks.len() + 1)[k] == session::session_path(
            name,
            clicks,
            k,
        ),
{
}

/// How long things are waited for, in milliseconds, and which ports a display may have.
pub proof fn waits_have_their_lengths()
    ensures
        process::POLL_INTERVAL_MS == 50,
        process::CLEANUP_GRACE_MS == 200,
        process::CLEANUP_POLL_MS == 10,
        process::READINESS_RETRY_MS == 100,
        process::SCREENSHOT_RETRY_MS == 200,
        process::SETTLE_AFTER_CLICK_MS == 500,
        process::WINDOW_RETRY_MS == 100,
        process::PICTURE_RETRY_MS == 150,
        process::HELPER_RETRY_MS == 100,
        process::HELPER_ANSWER_MS == 1000,
        process::FINAL_LOOK_MS == 1000,
        process::TEARDOWN_TOOL_MS == 1000,
        process::DEPENDENCY_CHECK_MS == 5000,
        process::DOCTOR_START_MS == 30_000,
        capture::FRAME_OBSERVATION_MS == 750,
        capture::MIN_VISIBLE_SAMPLES == 3,
        capture::SCREENSHOT_DIFF_PIXEL_THRESHOLD == 1024,
        capture::POST_CLICK_SCREENSHOT_DIFF_PIXEL_THRESHOLD == 25,
        vnc::POINTER_PARK_SETTLE_MS == 75,
        display::FIRST_PORT == 5900,
        display::END_PORT == 6000,
{
}

} // verus!
