//! What a run needs on the machine.
use crate::number::decimal;
use crate::text::{cat2, cat3, cat4, join, owned, strings};
use crate::{number, text};
use vstd::prelude::*;

verus! {

/// The tools that a run needs.
pub open spec fn tools_needed() -> Seq<Seq<char>> {
    seq![
        "flatpak"@,
        "dbus-run-session"@,
        "gnome-keyring-daemon"@,
        "weston"@,
        "tesseract"@,
        "compare"@,
        "convert"@,
        "identify"@,
    ]
}

/// The tools that a run needs.
pub fn required_tools() -> (out: Vec<String>)
    ensures
        text::views(out@) == tools_needed(),
{
    let out = strings(
        vec![
            "flatpak",
            "dbus-run-session",
            "gnome-keyring-daemon",
            "weston",
            "tesseract",
            "compare",
            "convert",
            "identify",
        ],
    );
    assert(text::views(out@) =~= tools_needed());
    out
}

/// A file that a run needs.
#[derive(Debug, Clone, Copy)]
pub struct RequiredPath {
    pub label: &'static str,
    pub path: &'static str,
    pub executable: bool,
}

impl RequiredPath {
    pub open spec fn is(&self, label: Seq<char>, path: Seq<char>, executable: bool) -> bool {
        self.label@ == label && self.path@ == path && self.executable == executable
    }

    pub fn executable(label: &'static str, path: &'static str) -> (out: Self)
        ensures
            out.is(label@, path@, true),
    {
        RequiredPath { label, path, executable: true }
    }

    pub fn file(label: &'static str, path: &'static str) -> (out: Self)
        ensures
            out.is(label@, path@, false),
    {
        RequiredPath { label, path, executable: false }
    }

    /// Whether the file is there as it is needed, given its mode where it is a file.
    pub fn is_present(&self, mode: Option<u32>) -> (yes: bool)
        ensures
            yes == (mode matches Some(bits) && (self.executable ==> may_execute(bits))),
    {
        match mode {
            None => false,
            Some(bits) => if self.executable {
                is_executable(bits)
            } else {
                true
            },
        }
    }
}

/// Whether a mode lets anyone execute a file.
pub open spec fn may_execute(mode: u32) -> bool {
    mode & 0o111u32 != 0
}

/// Whether a mode lets anyone execute a file.
pub fn is_executable(mode: u32) -> (yes: bool)
    ensures
        yes == may_execute(mode),
{
    mode & 0o111u32 != 0
}

/// The files that a run needs.
pub fn required_paths() -> (out: Vec<RequiredPath>)
    ensures
        out@.len() == 4,
        out@[0].is("xdg-desktop-portal"@, "/usr/libexec/xdg-desktop-portal"@, true),
        out@[1].is("xdg-desktop-portal-gtk"@, "/usr/libexec/xdg-desktop-portal-gtk"@, true),
        out@[2].is(
            "gnome-keyring Secret portal backend"@,
            "/usr/share/xdg-desktop-portal/portals/gnome-keyring.portal"@,
            false,
        ),
        out@[3].is("Weston VNC PAM service"@, "/etc/pam.d/weston-remote-access"@, false),
{
    vec![
        RequiredPath::executable("xdg-desktop-portal", "/usr/libexec/xdg-desktop-portal"),
        RequiredPath::executable("xdg-desktop-portal-gtk", "/usr/libexec/xdg-desktop-portal-gtk"),
        RequiredPath::file(
            "gnome-keyring Secret portal backend",
            "/usr/share/xdg-desktop-portal/portals/gnome-keyring.portal",
        ),
        RequiredPath::file("Weston VNC PAM service", "/etc/pam.d/weston-remote-access"),
    ]
}

/// The names that were not found, in order.
pub open spec fn not_found(names: Seq<Seq<char>>, found: Seq<bool>) -> Seq<Seq<char>>
    decreases names.len(),
{
    if names.len() == 0 {
        Seq::empty()
    } else if found[names.len() - 1] {
        not_found(names.drop_last(), found)
    } else {
        not_found(names.drop_last(), found).push(names.last())
    }
}

/// The tools that were not found, in order. `found` tells of each tool whether it was.
pub fn missing_tools(tools: &[&str], found: &[bool]) -> (out: Vec<String>)
    requires
        found@.len() == tools@.len(),
    ensures
        text::views(out@) == not_found(text::str_views(tools@), found@),
{
    let ghost names = text::str_views(tools@);
    let mut out: Vec<String> = Vec::new();
    let mut i: usize = 0;
    assert(names.take(0) =~= Seq::empty());
    assert(text::views(out@) =~= Seq::empty());
    while i < tools.len()
        invariant
            i <= tools@.len(),
            found@.len() == tools@.len(),
            names == text::str_views(tools@),
            text::views(out@) == not_found(names.take(i as int), found@),
        decreases tools@.len() - i,
    {
        proof {
            assert(names.take(i + 1).drop_last() =~= names.take(i as int));
            assert(names.take(i + 1).last() == tools@[i as int]@);
        }
        if !found[i] {
            let name = owned(tools[i]);
            proof {
                text::lemma_views_push(out@, name);
            }
            out.push(name);
        }
        i = i + 1;
    }
    assert(names.take(names.len() as int) =~= names);
    out
}

/// The labels of files.
pub open spec fn labels(paths: Seq<RequiredPath>) -> Seq<Seq<char>> {
    Seq::new(paths.len(), |i: int| paths[i].label@)
}

/// The labels of the files that are not there, in order. `present` tells of each file whether it
/// is.
pub fn missing_paths(paths: &[RequiredPath], present: &[bool]) -> (out: Vec<String>)
    requires
        present@.len() == paths@.len(),
    ensures
        text::views(out@) == not_found(labels(paths@), present@),
{
    let mut names: Vec<&str> = Vec::new();
    let mut i: usize = 0;
    while i < paths.len()
        invariant
            i <= paths@.len(),
            names@.len() == i,
            forall|k: int| 0 <= k < i ==> (#[trigger] names@[k])@ == paths@[k].label@,
        decreases paths@.len() - i,
    {
        names.push(paths[i].label);
        i = i + 1;
    }
    assert(text::str_views(names@) =~= labels(paths@));
    missing_tools(&names, present)
}

/// Nothing is missing exactly when all was found.
pub proof fn missing_means_not_found(names: Seq<Seq<char>>, found: Seq<bool>)
    requires
        found.len() == names.len(),
    ensures
        not_found(names, found).len() == 0 <==> forall|i: int|
            0 <= i < names.len() ==> #[trigger] found[i],
{
    lemma_missing(names, found);
}

proof fn lemma_missing(names: Seq<Seq<char>>, found: Seq<bool>)
    requires
        found.len() >= names.len(),
    ensures
        not_found(names, found).len() == 0 <==> forall|i: int|
            0 <= i < names.len() ==> #[trigger] found[i],
    decreases names.len(),
{
    if names.len() > 0 {
        lemma_missing(names.drop_last(), found);
        assert(names.drop_last().len() == names.len() - 1);
    }
}

/// The complaint about what is missing, if anything is.
pub open spec fn missing_message(missing: Seq<Seq<char>>) -> Seq<char> {
    "missing required tool(s): "@ + text::join_seq(missing, ", "@)
}

/// Complains about what is missing.
pub fn ensure_required_tools(missing: &Vec<String>) -> (out: Result<(), String>)
    ensures
        missing@.len() == 0 ==> out is Ok,
        missing@.len() > 0 ==> (out matches Err(message) && message@ == missing_message(
            text::views(missing@),
        )),
{
    if missing.len() == 0 {
        Ok(())
    } else {
        Err(cat2("missing required tool(s): ", join(missing, ", ").as_str()))
    }
}

/// What the check of the machine tells: lines for the error output, and how it ends.
pub fn doctor(missing: &Vec<String>) -> (out: (Vec<String>, Result<String, String>))
    ensures
        out.0@.len() == missing@.len(),
        forall|i: int|
            0 <= i < missing@.len() ==> (#[trigger] out.0@[i])@ == "missing required tool: "@
                + missing@[i]@,
        missing@.len() == 0 ==> (out.1 matches Ok(line) && line@ == "flatpak-smoke doctor: ok"@),
        missing@.len() > 0 ==> (out.1 matches Err(message) && message@ == "missing "@
            + number::decimal_seq(missing@.len()) + " required tool(s)"@),
{
    let mut told: Vec<String> = Vec::new();
    let mut i: usize = 0;
    while i < missing.len()
        invariant
            i <= missing@.len(),
            told@.len() == i,
            forall|k: int|
                0 <= k < i ==> (#[trigger] told@[k])@ == "missing required tool: "@
                    + missing@[k]@,
        decreases missing@.len() - i,
    {
        told.push(cat2("missing required tool: ", missing[i].as_str()));
        i = i + 1;
    }
    if missing.len() == 0 {
        (told, Ok(owned("flatpak-smoke doctor: ok")))
    } else {
        (
            told,
            Err(cat3("missing ", decimal(missing.len() as u128).as_str(), " required tool(s)")),
        )
    }
}

/// Complains about a path that is not there.
pub fn check_path(path: &str, label: &str, exists: bool) -> (out: Result<(), String>)
    ensures
        exists ==> out is Ok,
        !exists ==> (out matches Err(message) && message@ == label@ + " '"@ + path@
            + "' does not exist"@),
{
    if exists {
        Ok(())
    } else {
        Err(cat4(label, " '", path, "' does not exist"))
    }
}

} // verus!
