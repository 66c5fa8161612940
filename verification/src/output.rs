//! Where the results of a run are kept.
use crate::session::relative_screenshot_path;
use crate::text::{cat2, cat3, owned, starts_with, strings};
use crate::{session, text};
use vstd::prelude::*;

verus! {

/// The path of `name` below `base`; an absolute name stands for itself.
pub open spec fn joined(base: Seq<char>, name: Seq<char>) -> Seq<char> {
    if base.len() == 0 || text::begins(name, "/"@) {
        name
    } else if text::ends(base, "/"@) {
        base + name
    } else {
        base + "/"@ + name
    }
}

/// The path of `name` below `base`; an absolute name stands for itself.
pub fn join_path(base: &str, name: &str) -> (out: String)
    ensures
        out@ == joined(base@, name@),
{
    if base.is_empty() || starts_with(name, "/") {
        owned(name)
    } else if text::ends_with(base, "/") {
        cat2(base, name)
    } else {
        cat3(base, "/", name)
    }
}

/// The parts of a path between its slashes that name something: empty ones name nothing, and a
/// single dot only does at the very front.
pub open spec fn named_parts(pieces: Seq<Seq<char>>) -> Seq<Seq<char>>
    decreases pieces.len(),
{
    if pieces.len() == 0 {
        Seq::empty()
    } else if pieces.last().len() == 0 || (pieces.last() == "."@ && pieces.len() > 1) {
        named_parts(pieces.drop_last())
    } else {
        named_parts(pieces.drop_last()).push(pieces.last())
    }
}

/// The parts of a path that name something.
pub open spec fn path_parts(path: Seq<char>) -> Seq<Seq<char>> {
    named_parts(text::split_on(path, '/'))
}

/// How many components a path has; the root counts as one.
pub open spec fn component_count(path: Seq<char>) -> nat {
    path_parts(path).len() + if text::begins(path, "/"@) {
        1nat
    } else {
        0nat
    }
}

/// The parts of a path that name something.
pub fn parts_of(path: &str) -> (out: Vec<String>)
    ensures
        text::views(out@) == path_parts(path@),
{
    let pieces = text::split(path, '/');
    let ghost parts = text::views(pieces@);
    let mut out: Vec<String> = Vec::new();
    let mut i: usize = 0;
    assert(parts.take(0) =~= Seq::empty());
    assert(text::views(out@) =~= Seq::empty());
    while i < pieces.len()
        invariant
            i <= pieces@.len(),
            parts == text::views(pieces@),
            text::views(out@) == named_parts(parts.take(i as int)),
        decreases pieces@.len() - i,
    {
        proof {
            assert(parts.take(i + 1).drop_last() =~= parts.take(i as int));
            assert(parts.take(i + 1).last() == pieces@[i as int]@);
        }
        let piece = pieces[i].as_str();
        if !piece.is_empty() && (i == 0 || !text::same(piece, ".")) {
            let part = owned(piece);
            proof {
                text::lemma_views_push(out@, part);
            }
            out.push(part);
        }
        i = i + 1;
    }
    assert(parts.take(parts.len() as int) =~= parts);
    out
}

/// Whether a path has exactly one component.
pub fn is_single_component(path: &str) -> (yes: bool)
    ensures
        yes == (component_count(path@) == 1),
{
    let count: usize = parts_of(path).len();
    if starts_with(path, "/") {
        count == 0
    } else {
        count == 1
    }
}

/// Whether a path has more than one component.
pub fn has_several_components(path: &str) -> (yes: bool)
    ensures
        yes == (component_count(path@) > 1),
{
    let count: usize = parts_of(path).len();
    if starts_with(path, "/") {
        count > 0
    } else {
        count > 1
    }
}

/// The results that a run may leave in its directory.
pub open spec fn artifact_names() -> Seq<Seq<char>> {
    seq!["result.json"@, "screenshots.json"@, "screenshots"@, "logs"@]
}

/// The results that a run may leave in its directory.
pub fn artifacts() -> (out: Vec<String>)
    ensures
        text::views(out@) == artifact_names(),
{
    let out = strings(vec!["result.json", "screenshots.json", "screenshots", "logs"]);
    assert(text::views(out@) =~= artifact_names());
    out
}

/// The paths of a run's results.
#[derive(Debug, Clone)]
pub struct OutputLayout {
    pub screenshots_dir: String,
    pub logs_dir: String,
    pub result_json: String,
    pub screenshots_json: String,
    pub app_stdout: String,
    pub app_stderr: String,
    pub runner_log: String,
}

impl OutputLayout {
    /// These are the paths below `root`.
    pub open spec fn below(&self, root: Seq<char>) -> bool {
        let logs = joined(root, "logs"@);
        &&& self.screenshots_dir@ == joined(root, "screenshots"@)
        &&& self.logs_dir@ == logs
        &&& self.result_json@ == joined(root, "result.json"@)
        &&& self.screenshots_json@ == joined(root, "screenshots.json"@)
        &&& self.app_stdout@ == joined(logs, "app.stdout.log"@)
        &&& self.app_stderr@ == joined(logs, "app.stderr.log"@)
        &&& self.runner_log@ == joined(logs, "runner.log"@)
    }

    pub fn new(root: &str) -> (out: Self)
        ensures
            out.below(root@),
    {
        let logs = join_path(root, "logs");
        OutputLayout {
            screenshots_dir: join_path(root, "screenshots"),
            result_json: join_path(root, "result.json"),
            screenshots_json: join_path(root, "screenshots.json"),
            app_stdout: join_path(logs.as_str(), "app.stdout.log"),
            app_stderr: join_path(logs.as_str(), "app.stderr.log"),
            runner_log: join_path(logs.as_str(), "runner.log"),
            logs_dir: logs,
        }
    }

    /// The paths of a run below `root`, and what to remove there first. `occupied` tells whether
    /// `root` holds results of an earlier run, which only `force` gives up.
    pub fn prepare(root: &str, exists: bool, occupied: bool, force: bool) -> (out: Result<
        (OutputLayout, Vec<String>),
        String,
    >)
        ensures
            exists && occupied && !force ==> (out matches Err(message) && message@
                == "output directory '"@ + root@
                + "' already contains flatpak-smoke artifacts; pass --force to overwrite"@),
            !(exists && occupied && !force) ==> (out matches Ok((layout, removed)) && layout.below(
                root@,
            ) && text::views(removed@) == if exists && force {
                artifact_names()
            } else {
                Seq::empty()
            }),
    {
        if exists && occupied && !force {
            return Err(
                cat3(
                    "output directory '",
                    root,
                    "' already contains flatpak-smoke artifacts; pass --force to overwrite",
                ),
            );
        }
        let removed: Vec<String> = if exists && force {
            artifacts()
        } else {
            Vec::new()
        };
        assert(!(exists && force) ==> text::views(removed@) =~= Seq::empty());
        Ok((OutputLayout::new(root), removed))
    }

    pub fn screenshot_path(&self, screenshot_name: &str) -> (out: String)
        ensures
            out@ == joined(self.screenshots_dir@, screenshot_name@),
    {
        join_path(self.screenshots_dir.as_str(), screenshot_name)
    }

    pub fn relative_screenshot_path(&self, screenshot_name: &str) -> (out: String)
        ensures
            out@ == session::relative_path(screenshot_name@),
    {
        relative_screenshot_path(screenshot_name)
    }
}

/// The screenshot's path in the results leads from the directory of the run to the screenshot.
pub proof fn relative_paths_lead_to_the_screenshot(
    layout: OutputLayout,
    root: Seq<char>,
    name: Seq<char>,
)
    requires
        layout.below(root),
        !text::begins(name, "/"@),
    ensures
        joined(root, session::relative_path(name)) == joined(layout.screenshots_dir@, name),
{
    reveal_strlit("screenshots");
    reveal_strlit("screenshots/");
    reveal_strlit("/");
    let dir = layout.screenshots_dir@;
    let path = session::relative_path(name);
    assert(path =~= "screenshots"@ + "/"@ + name);
    assert(!text::begins(path, "/"@)) by {
        assert(path[0] == 's' && "/"@[0] == '/');
    }
    assert(!text::begins("screenshots"@, "/"@)) by {
        assert("screenshots"@[0] == 's' && "/"@[0] == '/');
    }
    assert(dir[dir.len() - 1] == 's');
    assert(!text::ends(dir, "/"@)) by {
        assert("/"@[0] == '/');
    }
    assert(joined(root, path) =~= dir + "/"@ + name);
}

} // verus!
