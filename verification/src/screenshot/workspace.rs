//! The private home of a capture: its directories and its environment.
use crate::text::{owned, strings};
use crate::text;
use vstd::prelude::*;

verus! {

/// The directories of the home.
pub open spec fn directories() -> Seq<Seq<char>> {
    seq!["data"@, "cache"@, "config"@, "state"@, "runtime"@, ".var/app"@]
}

/// The directories of the home.
pub fn home_directories() -> (out: Vec<String>)
    ensures
        text::views(out@) == directories(),
{
    let out = strings(vec!["data", "cache", "config", "state", "runtime", ".var/app"]);
    assert(text::views(out@) =~= directories());
    out
}

/// Where the value of a variable comes from.
#[derive(Debug)]
pub enum Origin {
    /// From the caller, or this text where the caller has none.
    Inherited(String),
    /// The home itself.
    Home,
    /// This text.
    Fixed(String),
    /// This directory of the home.
    Below(String),
}

/// Where a value comes from, over contents.
pub enum OriginView {
    Inherited(Seq<char>),
    Home,
    Fixed(Seq<char>),
    Below(Seq<char>),
}

impl View for Origin {
    type V = OriginView;

    open spec fn view(&self) -> OriginView {
        match *self {
            Origin::Inherited(default) => OriginView::Inherited(default@),
            Origin::Home => OriginView::Home,
            Origin::Fixed(value) => OriginView::Fixed(value@),
            Origin::Below(directory) => OriginView::Below(directory@),
        }
    }
}

/// A variable of the capture's environment.
#[derive(Debug)]
pub struct Entry {
    pub name: String,
    pub origin: Origin,
}

impl Entry {
    pub open spec fn is(&self, entry: (Seq<char>, OriginView)) -> bool {
        self.name@ == entry.0 && self.origin@ == entry.1
    }
}

/// The whole environment of a capture.
pub open spec fn environment() -> Seq<(Seq<char>, OriginView)> {
    seq![
        ("PATH"@, OriginView::Inherited("/usr/local/bin:/usr/bin:/bin"@)),
        ("HOME"@, OriginView::Home),
        ("LANG"@, OriginView::Fixed("en_US.UTF-8"@)),
        ("LC_ALL"@, OriginView::Fixed("en_US.UTF-8"@)),
        ("LANGUAGE"@, OriginView::Fixed("en"@)),
        ("XDG_CURRENT_DESKTOP"@, OriginView::Fixed("GNOME"@)),
        ("XDG_SESSION_TYPE"@, OriginView::Fixed("wayland"@)),
        ("XDG_DATA_DIRS"@, OriginView::Fixed("/usr/local/share:/usr/share"@)),
        ("GSETTINGS_BACKEND"@, OriginView::Fixed("keyfile"@)),
        ("LIBGL_ALWAYS_SOFTWARE"@, OriginView::Fixed("1"@)),
        ("GSK_RENDERER"@, OriginView::Fixed("cairo"@)),
        ("GTK_A11Y"@, OriginView::Fixed("atspi"@)),
        ("QT_LINUX_ACCESSIBILITY_ALWAYS_ON"@, OriginView::Fixed("1"@)),
        ("QT_QPA_PLATFORM"@, OriginView::Fixed("wayland"@)),
        ("GDK_BACKEND"@, OriginView::Fixed("wayland"@)),
        ("WAYLAND_DISPLAY"@, OriginView::Fixed("wayland-0"@)),
        ("XDG_DATA_HOME"@, OriginView::Below("data"@)),
        ("XDG_CACHE_HOME"@, OriginView::Below("cache"@)),
        ("XDG_CONFIG_HOME"@, OriginView::Below("config"@)),
        ("XDG_STATE_HOME"@, OriginView::Below("state"@)),
        ("XDG_RUNTIME_DIR"@, OriginView::Below("runtime"@)),
    ]
}

fn fixed(name: &str, value: &str) -> (out: Entry)
    ensures
        out.is((name@, OriginView::Fixed(value@))),
{
    Entry { name: owned(name), origin: Origin::Fixed(owned(value)) }
}

fn below(name: &str, directory: &str) -> (out: Entry)
    ensures
        out.is((name@, OriginView::Below(directory@))),
{
    Entry { name: owned(name), origin: Origin::Below(owned(directory)) }
}

/// The whole environment of a capture.
pub fn capture_environment() -> (out: Vec<Entry>)
    ensures
        out@.len() == environment().len(),
        forall|i: int| 0 <= i < out@.len() ==> (#[trigger] out@[i]).is(environment()[i]),
{
    vec![
        Entry {
            name: owned("PATH"),
            origin: Origin::Inherited(owned("/usr/local/bin:/usr/bin:/bin")),
        },
        Entry { name: owned("HOME"), origin: Origin::Home },
        fixed("LANG", "en_US.UTF-8"),
        fixed("LC_ALL", "en_US.UTF-8"),
        fixed("LANGUAGE", "en"),
        fixed("XDG_CURRENT_DESKTOP", "GNOME"),
        fixed("XDG_SESSION_TYPE", "wayland"),
        fixed("XDG_DATA_DIRS", "/usr/local/share:/usr/share"),
        fixed("GSETTINGS_BACKEND", "keyfile"),
        fixed("LIBGL_ALWAYS_SOFTWARE", "1"),
        fixed("GSK_RENDERER", "cairo"),
        fixed("GTK_A11Y", "atspi"),
        fixed("QT_LINUX_ACCESSIBILITY_ALWAYS_ON", "1"),
        fixed("QT_QPA_PLATFORM", "wayland"),
        fixed("GDK_BACKEND", "wayland"),
        fixed("WAYLAND_DISPLAY", "wayland-0"),
        below("XDG_DATA_HOME", "data"),
        below("XDG_CACHE_HOME", "cache"),
        below("XDG_CONFIG_HOME", "config"),
        below("XDG_STATE_HOME", "state"),
        below("XDG_RUNTIME_DIR", "runtime"),
    ]
}

/// Nothing of the caller's environment reaches a capture but the path of programs.
pub proof fn only_the_path_is_inherited(i: int)
    requires
        0 <= i < environment().len(),
        environment()[i].1 is Inherited,
    ensures
        environment()[i].0 == "PATH"@,
{
}

} // verus!
