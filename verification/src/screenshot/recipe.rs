//! Recipes: what to do with an app, and when to capture it.
use crate::cli::parse_duration;
use crate::number::decimal;
use crate::text::{
    ascii_alnum, blank, cat2, cat3, chars, has_char, owned, same, split, trim_end,
};
use crate::time::Duration;
use crate::{cli, number, text};
use vstd::prelude::*;

verus! {

/// A recipe as it was written.
#[derive(Debug)]
pub struct Recipe {
    pub version: u32,
    pub desktop: String,
    pub language: String,
    pub window: Window,
    pub setup: Setup,
    pub launch: Launch,
    pub steps: Vec<Step>,
}

/// The first window of an app.
#[derive(Debug)]
pub struct Window {
    pub title: Option<String>,
    pub width: u32,
    pub height: u32,
}

impl Default for Window {
    fn default() -> (out: Self)
        ensures
            out.title is None,
            out.width == 900,
            out.height == 600,
    {
        Window { title: None, width: 900, height: 600 }
    }
}

/// What is put into the app's profile before it starts.
#[derive(Debug)]
pub struct Setup {
    pub files: Vec<SetupFile>,
}

/// A file or a directory next to the recipe, and its place in the profile.
#[derive(Debug)]
pub struct SetupFile {
    pub source: String,
    pub destination: String,
}

/// How the app is started.
#[derive(Debug)]
pub struct Launch {
    pub args: Vec<String>,
}

/// A screenshot to take.
#[derive(Debug)]
pub struct Capture {
    pub name: String,
    pub caption: String,
}

/// A window to go on with.
#[derive(Debug)]
pub struct Selection {
    pub title: String,
}

#[derive(Debug)]
pub enum Action {
    Capture(Capture),
    ClickText(String),
    TypeText(String),
    Key(Vec<u32>),
    WaitText(String),
    SelectWindow(Selection),
}

#[derive(Debug)]
pub struct Step {
    pub timeout: Option<Duration>,
    pub action: Action,
}

/// A step as it was written.
#[derive(Debug)]
pub struct RawStep {
    pub timeout: Option<String>,
    pub capture: Option<Capture>,
    pub click_text: Option<String>,
    pub type_text: Option<String>,
    pub key: Option<String>,
    pub wait_text: Option<String>,
    pub select_window: Option<Selection>,
}

// ---------------------------------------------------------------------------
// Keys

/// The modifiers, and the symbols that stand for them.
pub open spec fn modifiers() -> Seq<(Seq<char>, u32)> {
    seq![
        ("Ctrl"@, 0xffe3u32),
        ("Shift"@, 0xffe1u32),
        ("Alt"@, 0xffe9u32),
        ("Super"@, 0xffebu32),
    ]
}

/// The keys that have names, and the symbols that stand for them.
pub open spec fn named_keys() -> Seq<(Seq<char>, u32)> {
    seq![
        ("Return"@, 0xff0du32),
        ("Escape"@, 0xff1bu32),
        ("Tab"@, 0xff09u32),
        ("BackSpace"@, 0xff08u32),
        ("Delete"@, 0xffffu32),
        ("Left"@, 0xff51u32),
        ("Up"@, 0xff52u32),
        ("Right"@, 0xff53u32),
        ("Down"@, 0xff54u32),
        ("Home"@, 0xff50u32),
        ("End"@, 0xff57u32),
        ("PageUp"@, 0xff55u32),
        ("PageDown"@, 0xff56u32),
        ("F1"@, 0xffbeu32),
        ("F2"@, 0xffbfu32),
        ("F3"@, 0xffc0u32),
        ("F4"@, 0xffc1u32),
        ("F5"@, 0xffc2u32),
        ("F6"@, 0xffc3u32),
        ("F7"@, 0xffc4u32),
        ("F8"@, 0xffc5u32),
        ("F9"@, 0xffc6u32),
        ("F10"@, 0xffc7u32),
        ("F11"@, 0xffc8u32),
        ("F12"@, 0xffc9u32),
        ("space"@, 0x20u32),
        ("comma"@, 0x2cu32),
        ("plus"@, 0x2bu32),
    ]
}

/// The first entry of a name in a table.
pub open spec fn lookup(table: Seq<(Seq<char>, u32)>, name: Seq<char>) -> Option<u32>
    decreases table.len(),
{
    if table.len() == 0 {
        None
    } else if table[0].0 == name {
        Some(table[0].1)
    } else {
        lookup(table.skip(1), name)
    }
}

/// The symbol of a key: by its name, or, for a printable ASCII character, by the character.
pub open spec fn key_symbol(key: Seq<char>) -> Option<u32> {
    match lookup(named_keys(), key) {
        Some(value) => Some(value),
        None => if key.len() == 1 && text::is_ascii_graphic(key[0]) {
            Some(key[0] as u32)
        } else {
            None
        },
    }
}

/// The symbols of the first `count` parts, which must be different modifiers.
pub open spec fn modifier_symbols(parts: Seq<Seq<char>>, count: int) -> Result<Seq<u32>, Seq<char>>
    decreases count,
{
    if count <= 0 {
        Ok(Seq::empty())
    } else {
        let modifier = parts[count - 1];
        match modifier_symbols(parts, count - 1) {
            Err(fault) => Err(fault),
            Ok(values) => match lookup(modifiers(), modifier) {
                None => Err("unsupported key modifier '"@ + modifier + "'"@),
                Some(value) => if values.contains(value) {
                    Err("duplicate key modifier '"@ + modifier + "'"@)
                } else {
                    Ok(values.push(value))
                },
            },
        }
    }
}

/// The symbols of a chord: its modifiers and then its key.
pub open spec fn chord_symbols(chord: Seq<char>) -> Result<Seq<u32>, Seq<char>> {
    let parts = text::split_on(chord, '+');
    match modifier_symbols(parts, parts.len() - 1) {
        Err(fault) => Err(fault),
        Ok(values) => match key_symbol(parts.last()) {
            None => Err("unsupported key '"@ + parts.last() + "'"@),
            Some(value) => Ok(values.push(value)),
        },
    }
}

/// The table that borrowed entries make.
pub open spec fn table_of(entries: Seq<(&str, u32)>) -> Seq<(Seq<char>, u32)> {
    Seq::new(entries.len(), |i: int| (entries[i].0@, entries[i].1))
}

fn find_entry(entries: &Vec<(&str, u32)>, name: &str) -> (out: Option<u32>)
    ensures
        out == lookup(table_of(entries@), name@),
{
    let ghost table = table_of(entries@);
    let mut i: usize = 0;
    assert(table.skip(0) =~= table);
    while i < entries.len()
        invariant
            i <= entries@.len(),
            table == table_of(entries@),
            lookup(table, name@) == lookup(table.skip(i as int), name@),
        decreases entries@.len() - i,
    {
        assert(table.skip(i as int)[0] == (entries@[i as int].0@, entries@[i as int].1));
        assert(table.skip(i as int).skip(1) =~= table.skip(i + 1));
        if same(entries[i].0, name) {
            return Some(entries[i].1);
        }
        i = i + 1;
    }
    None
}

fn modifier_value(name: &str) -> (out: Option<u32>)
    ensures
        out == lookup(modifiers(), name@),
{
    let entries: Vec<(&str, u32)> = vec![
        ("Ctrl", 0xffe3u32),
        ("Shift", 0xffe1),
        ("Alt", 0xffe9),
        ("Super", 0xffeb),
    ];
    assert(table_of(entries@) =~= modifiers());
    find_entry(&entries, name)
}

fn key_value(key: &str) -> (out: Option<u32>)
    ensures
        out == key_symbol(key@),
{
    let entries: Vec<(&str, u32)> = vec![
        ("Return", 0xff0du32),
        ("Escape", 0xff1b),
        ("Tab", 0xff09),
        ("BackSpace", 0xff08),
        ("Delete", 0xffff),
        ("Left", 0xff51),
        ("Up", 0xff52),
        ("Right", 0xff53),
        ("Down", 0xff54),
        ("Home", 0xff50),
        ("End", 0xff57),
        ("PageUp", 0xff55),
        ("PageDown", 0xff56),
        ("F1", 0xffbe),
        ("F2", 0xffbf),
        ("F3", 0xffc0),
        ("F4", 0xffc1),
        ("F5", 0xffc2),
        ("F6", 0xffc3),
        ("F7", 0xffc4),
        ("F8", 0xffc5),
        ("F9", 0xffc6),
        ("F10", 0xffc7),
        ("F11", 0xffc8),
        ("F12", 0xffc9),
        ("space", 0x20),
        ("comma", 0x2c),
        ("plus", 0x2b),
    ];
    assert(table_of(entries@) =~= named_keys());
    match find_entry(&entries, key) {
        Some(value) => Some(value),
        None => {
            let all = chars(key);
            if all.len() == 1 && '!' <= all[0] && all[0] <= '~' {
                Some(all[0] as u32)
            } else {
                None
            }
        },
    }
}

/// Whether `wanted` is among `values`.
fn has_value(values: &Vec<u32>, wanted: u32) -> (found: bool)
    ensures
        found == values@.contains(wanted),
{
    let mut i: usize = 0;
    while i < values.len()
        invariant
            i <= values@.len(),
            forall|k: int| 0 <= k < i ==> values@[k] != wanted,
        decreases values@.len() - i,
    {
        if values[i] == wanted {
            assert(values@[i as int] == wanted);
            return true;
        }
        i = i + 1;
    }
    false
}

/// The symbols of a chord: its modifiers and then its key.
pub fn key_values(chord: &str) -> (out: Result<Vec<u32>, String>)
    ensures
        match chord_symbols(chord@) {
            Ok(symbols) => out matches Ok(values) && values@ == symbols,
            Err(fault) => out matches Err(message) && message@ == fault,
        },
{
    let parts = split(chord, '+');
    let ghost written = text::views(parts@);
    proof {
        text::lemma_split_pieces(chord@, '+');
    }
    let last: usize = parts.len() - 1;
    let mut values: Vec<u32> = Vec::new();
    let mut i: usize = 0;
    while i < last
        invariant
            i <= last,
            last == parts@.len() - 1,
            written == text::views(parts@),
            written == text::split_on(chord@, '+'),
            modifier_symbols(written, i as int) == Ok::<Seq<u32>, Seq<char>>(values@),
        decreases last - i,
    {
        let modifier = parts[i].as_str();
        assert(written[i as int] == modifier@);
        match modifier_value(modifier) {
            None => {
                proof {
                    lemma_fault_stays(written, i + 1, last as int);
                }
                return Err(cat3("unsupported key modifier '", modifier, "'"));
            },
            Some(value) => {
                if has_value(&values, value) {
                    proof {
                        lemma_fault_stays(written, i + 1, last as int);
                    }
                    return Err(cat3("duplicate key modifier '", modifier, "'"));
                }
                values.push(value);
            },
        }
        i = i + 1;
    }
    let key = parts[last].as_str();
    assert(written.last() == key@);
    match key_value(key) {
        Some(value) => {
            values.push(value);
            Ok(values)
        },
        None => Err(cat3("unsupported key '", key, "'")),
    }
}

/// The first fault of a chord's modifiers is the one that counts.
proof fn lemma_fault_stays(parts: Seq<Seq<char>>, count: int, more: int)
    requires
        count <= more,
        modifier_symbols(parts, count) is Err,
    ensures
        modifier_symbols(parts, more) == modifier_symbols(parts, count),
    decreases more - count,
{
    if count < more && more > 0 {
        lemma_fault_stays(parts, count, more - 1);
    }
}

/// No modifier of a chord is pressed twice.
pub proof fn chord_modifiers_are_distinct(parts: Seq<Seq<char>>, count: int)
    ensures
        modifier_symbols(parts, count) matches Ok(values) ==> values.no_duplicates(),
    decreases count,
{
    if count > 0 {
        chord_modifiers_are_distinct(parts, count - 1);
    }
}

/// A chord that is accepted presses as many keys as it names.
pub proof fn chords_press_every_part(chord: Seq<char>)
    ensures
        chord_symbols(chord) matches Ok(values) ==> values.len() == text::split_on(
            chord,
            '+',
        ).len(),
{
    let parts = text::split_on(chord, '+');
    text::lemma_split_pieces(chord, '+');
    lemma_modifier_count(parts, parts.len() - 1);
}

proof fn lemma_modifier_count(parts: Seq<Seq<char>>, count: int)
    requires
        count >= 0,
    ensures
        modifier_symbols(parts, count) matches Ok(values) ==> values.len() == count,
    decreases count,
{
    if count > 0 {
        lemma_modifier_count(parts, count - 1);
    }
}

// ---------------------------------------------------------------------------
// Steps

/// The character with the number zero.
pub open spec fn nul() -> char {
    '\0'
}

/// Whether a text says something: it is not blank and has no NUL.
pub open spec fn says_something(value: Seq<char>) -> bool {
    text::trimmed(value).len() > 0 && !value.contains(nul())
}

/// What is wrong with a text that has to say something, if anything is.
pub open spec fn nonempty_fault(value: Seq<char>, what: Seq<char>) -> Option<Seq<char>> {
    if says_something(value) {
        None
    } else {
        Some(what + " must not be empty or contain NUL"@)
    }
}

fn nonempty(value: &str, what: &str) -> (out: Result<(), String>)
    ensures
        match nonempty_fault(value@, what@) {
            Some(fault) => out matches Err(message) && message@ == fault,
            None => out is Ok,
        },
{
    if blank(value) || has_char(value, '\0') {
        Err(cat2(what, " must not be empty or contain NUL"))
    } else {
        Ok(())
    }
}

/// Whether a character may stand in the name of a capture.
pub open spec fn name_char(c: char) -> bool {
    text::is_ascii_alnum(c) || c == '-' || c == '_'
}

/// Whether a capture may have a name.
pub open spec fn name_ok(name: Seq<char>) -> bool {
    &&& 0 < name.len() <= 100
    &&& forall|i: int| 0 <= i < name.len() ==> name_char(#[trigger] name[i])
}

/// What is wrong with a capture, if anything is.
pub open spec fn capture_fault(name: Seq<char>, caption: Seq<char>) -> Option<Seq<char>> {
    if !name_ok(name) {
        Some("capture name must contain only letters, digits, '-' or '_'"@)
    } else if !says_something(caption) {
        nonempty_fault(caption, "caption"@)
    } else if caption.contains('\n') || caption.contains('\r') || text::ends(
        text::trimmed_end(caption),
        "."@,
    ) {
        Some("caption must be a single line without a trailing full stop"@)
    } else {
        None
    }
}

/// What is wrong with a text to type, if anything is.
pub open spec fn typed_fault(typed: Seq<char>) -> Option<Seq<char>> {
    if typed.len() == 0 || typed.contains(nul()) {
        Some("type_text must contain nonempty text without NUL"@)
    } else {
        None
    }
}

pub open spec fn one_if(present: bool) -> nat {
    if present {
        1
    } else {
        0
    }
}

/// How many actions a step names.
pub open spec fn action_count(raw: RawStep) -> nat {
    one_if(raw.capture is Some) + one_if(raw.click_text is Some) + one_if(raw.type_text is Some)
        + one_if(raw.key is Some) + one_if(raw.wait_text is Some) + one_if(
        raw.select_window is Some,
    )
}

/// What is wrong with the one action of a step, if anything is.
pub open spec fn action_fault(raw: RawStep) -> Option<Seq<char>> {
    if raw.capture is Some {
        capture_fault(raw.capture->0.name@, raw.capture->0.caption@)
    } else if raw.click_text is Some {
        nonempty_fault(raw.click_text->0@, "click text"@)
    } else if raw.wait_text is Some {
        nonempty_fault(raw.wait_text->0@, "wait text"@)
    } else if raw.type_text is Some {
        typed_fault(raw.type_text->0@)
    } else if raw.select_window is Some {
        nonempty_fault(raw.select_window->0.title@, "window title"@)
    } else {
        None
    }
}

/// What is wrong with a step, if anything is: its key, the number of its actions, its action, or
/// its timeout.
pub open spec fn step_fault(raw: RawStep) -> Option<Seq<char>> {
    if raw.key is Some && chord_symbols(raw.key->0@) is Err {
        Some(chord_symbols(raw.key->0@)->Err_0)
    } else if action_count(raw) != 1 {
        Some("each step must contain exactly one action"@)
    } else if action_fault(raw) is Some {
        action_fault(raw)
    } else if raw.timeout is Some && cli::duration_value(raw.timeout->0@) is Err {
        Some(cli::duration_value(raw.timeout->0@)->Err_0)
    } else {
        None
    }
}

/// The nanoseconds of an optional duration.
pub open spec fn timeout_view(timeout: Option<Duration>) -> Option<nat> {
    match timeout {
        Some(duration) => Some(duration@),
        None => None,
    }
}

/// What is wrong with an action, if anything is.
pub open spec fn action_flaw(action: Action) -> Option<Seq<char>> {
    match action {
        Action::Capture(capture) => capture_fault(capture.name@, capture.caption@),
        Action::ClickText(label) => nonempty_fault(label@, "click text"@),
        Action::WaitText(label) => nonempty_fault(label@, "wait text"@),
        Action::TypeText(typed) => typed_fault(typed@),
        Action::SelectWindow(selection) => nonempty_fault(selection.title@, "window title"@),
        Action::Key(_) => None,
    }
}

/// Whether an action is the one that a step names.
pub open spec fn is_action_of(action: Action, raw: RawStep) -> bool {
    match action {
        Action::Capture(capture) => raw.capture == Some(capture),
        Action::ClickText(label) => raw.click_text == Some(label),
        Action::TypeText(typed) => raw.type_text == Some(typed),
        Action::WaitText(label) => raw.wait_text == Some(label),
        Action::SelectWindow(selection) => raw.select_window == Some(selection),
        Action::Key(symbols) => raw.key is Some && chord_symbols(raw.key->0@) == Ok::<
            Seq<u32>,
            Seq<char>,
        >(symbols@),
    }
}

fn is_name(name: &str) -> (yes: bool)
    ensures
        yes == name_ok(name@),
{
    let all = chars(name);
    if all.len() == 0 || all.len() > 100 {
        return false;
    }
    let mut i: usize = 0;
    while i < all.len()
        invariant
            i <= all@.len(),
            all@ == name@,
            forall|k: int| 0 <= k < i ==> name_char(#[trigger] name@[k]),
        decreases all@.len() - i,
    {
        let c = all[i];
        if !(ascii_alnum(c) || c == '-' || c == '_') {
            assert(!name_char(name@[i as int]));
            return false;
        }
        i = i + 1;
    }
    true
}

fn check_capture(capture: &Capture) -> (out: Result<(), String>)
    ensures
        match capture_fault(capture.name@, capture.caption@) {
            Some(fault) => out matches Err(message) && message@ == fault,
            None => out is Ok,
        },
{
    if !is_name(capture.name.as_str()) {
        return Err(owned("capture name must contain only letters, digits, '-' or '_'"));
    }
    let caption = capture.caption.as_str();
    match nonempty(caption, "caption") {
        Ok(()) => {},
        Err(message) => return Err(message),
    }
    if has_char(caption, '\n') || has_char(caption, '\r') || text::ends_with(
        trim_end(caption).as_str(),
        ".",
    ) {
        return Err(owned("caption must be a single line without a trailing full stop"));
    }
    Ok(())
}

fn check_action(action: &Action) -> (out: Result<(), String>)
    ensures
        match action_flaw(*action) {
            Some(fault) => out matches Err(message) && message@ == fault,
            None => out is Ok,
        },
{
    match action {
        Action::Capture(capture) => check_capture(capture),
        Action::ClickText(label) => nonempty(label.as_str(), "click text"),
        Action::WaitText(label) => nonempty(label.as_str(), "wait text"),
        Action::TypeText(typed) => if typed.as_str().is_empty() || has_char(typed.as_str(), '\0') {
            Err(owned("type_text must contain nonempty text without NUL"))
        } else {
            Ok(())
        },
        Action::SelectWindow(selection) => nonempty(selection.title.as_str(), "window title"),
        Action::Key(_) => Ok(()),
    }
}

impl Step {
    /// The action of a step is in order, and its timeout is a time.
    pub open spec fn wf(&self) -> bool {
        &&& action_flaw(self.action) is None
        &&& timeout_view(self.timeout) matches Some(nanos) ==> nanos > 0
    }

    /// Takes a step as it was written.
    pub fn try_from(raw: RawStep) -> (out: Result<Self, String>)
        ensures
            match step_fault(raw) {
                Some(fault) => out matches Err(message) && message@ == fault,
                None => out matches Ok(step) && step.wf() && is_action_of(step.action, raw)
                    && timeout_view(step.timeout) == match raw.timeout {
                    Some(written) => Some(cli::duration_value(written@)->Ok_0),
                    None => None,
                },
            },
    {
        let key = match &raw.key {
            Some(chord) => match key_values(chord.as_str()) {
                Ok(values) => Some(values),
                Err(message) => return Err(message),
            },
            None => None,
        };
        let action = match (
            (raw.capture, raw.click_text, raw.type_text),
            (raw.wait_text, raw.select_window, key),
        ) {
            ((Some(capture), None, None), (None, None, None)) => Action::Capture(capture),
            ((None, Some(label), None), (None, None, None)) => Action::ClickText(label),
            ((None, None, Some(typed)), (None, None, None)) => Action::TypeText(typed),
            ((None, None, None), (Some(label), None, None)) => Action::WaitText(label),
            ((None, None, None), (None, Some(selection), None)) => Action::SelectWindow(selection),
            ((None, None, None), (None, None, Some(values))) => Action::Key(values),
            _ => return Err(owned("each step must contain exactly one action")),
        };
        match check_action(&action) {
            Ok(()) => {},
            Err(message) => return Err(message),
        }
        let timeout = match raw.timeout {
            Some(written) => match parse_duration(written.as_str()) {
                Ok(duration) => Some(duration),
                Err(message) => return Err(message),
            },
            None => None,
        };
        Ok(Step { timeout, action })
    }
}

// ---------------------------------------------------------------------------
// Whole recipes

/// The names of the captures of steps, in order.
pub open spec fn capture_names(steps: Seq<Step>) -> Seq<Seq<char>>
    decreases steps.len(),
{
    if steps.len() == 0 {
        Seq::empty()
    } else {
        match steps.last().action {
            Action::Capture(capture) => capture_names(steps.drop_last()).push(capture.name@),
            _ => capture_names(steps.drop_last()),
        }
    }
}

/// What is wrong with the names of captures, if anything is: the first one that was used before.
pub open spec fn names_fault(steps: Seq<Step>) -> Option<Seq<char>>
    decreases steps.len(),
{
    if steps.len() == 0 {
        None
    } else {
        match names_fault(steps.drop_last()) {
            Some(fault) => Some(fault),
            None => match steps.last().action {
                Action::Capture(capture) => if capture_names(steps.drop_last()).contains(
                    capture.name@,
                ) {
                    Some("duplicate capture name '"@ + capture.name@ + "'"@)
                } else {
                    None
                },
                _ => None,
            },
        }
    }
}

/// The first flaw of the actions from number `from` on.
pub open spec fn actions_fault(steps: Seq<Step>, from: int) -> Option<Seq<char>>
    decreases steps.len() - from,
{
    if from < 0 || from >= steps.len() {
        None
    } else {
        match action_flaw(steps[from].action) {
            Some(fault) => Some(fault),
            None => actions_fault(steps, from + 1),
        }
    }
}

/// What is wrong with a recipe, if anything is: single steps come before the recipe as a whole.
pub open spec fn recipe_fault(recipe: Recipe) -> Option<Seq<char>> {
    let window = recipe.window;
    if actions_fault(recipe.steps@, 0) is Some {
        actions_fault(recipe.steps@, 0)
    } else if recipe.version != 1 {
        Some("unsupported recipe version "@ + number::decimal_seq(recipe.version as nat))
    } else if recipe.desktop@ != "gnome"@ {
        Some("unsupported desktop '"@ + recipe.desktop@ + "'"@)
    } else if recipe.language@ != "en"@ {
        Some("unsupported screenshot language '"@ + recipe.language@ + "'"@)
    } else if !(1 <= window.width <= 1000 && 1 <= window.height <= 700) {
        Some("window size must be within 1000x700 logical pixels"@)
    } else if window.title is Some && !says_something(window.title->0@) {
        nonempty_fault(window.title->0@, "window title"@)
    } else if names_fault(recipe.steps@) is Some {
        names_fault(recipe.steps@)
    } else if capture_names(recipe.steps@).len() == 0 {
        Some("recipe must contain at least one capture"@)
    } else {
        None
    }
}

/// The names of the captures, where no two are the same.
fn distinct_names(steps: &Vec<Step>) -> (out: Result<Vec<String>, String>)
    ensures
        match names_fault(steps@) {
            Some(fault) => out matches Err(message) && message@ == fault,
            None => out matches Ok(names) && text::views(names@) == capture_names(steps@),
        },
{
    let mut names: Vec<String> = Vec::new();
    let mut i: usize = 0;
    assert(steps@.take(0) =~= Seq::empty());
    assert(text::views(names@) =~= Seq::empty());
    while i < steps.len()
        invariant
            i <= steps@.len(),
            names_fault(steps@.take(i as int)) is None,
            text::views(names@) == capture_names(steps@.take(i as int)),
        decreases steps@.len() - i,
    {
        proof {
            assert(steps@.take(i + 1).drop_last() =~= steps@.take(i as int));
            assert(steps@.take(i + 1).last() == steps@[i as int]);
        }
        match &steps[i].action {
            Action::Capture(capture) => {
                let name = capture.name.as_str();
                if text::list_contains(&names, name) {
                    proof {
                        lemma_names_fault_stays(steps@, i + 1);
                    }
                    return Err(cat3("duplicate capture name '", name, "'"));
                }
                let copy = owned(name);
                proof {
                    text::lemma_views_push(names@, copy);
                }
                names.push(copy);
            },
            _ => {},
        }
        i = i + 1;
    }
    assert(steps@.take(steps@.len() as int) =~= steps@);
    Ok(names)
}

/// The first name that was used before is the one that counts.
proof fn lemma_names_fault_stays(steps: Seq<Step>, count: int)
    requires
        0 <= count <= steps.len(),
        names_fault(steps.take(count)) is Some,
    ensures
        names_fault(steps) == names_fault(steps.take(count)),
    decreases steps.len(),
{
    if count < steps.len() {
        assert(steps.drop_last().take(count) =~= steps.take(count));
        lemma_names_fault_stays(steps.drop_last(), count);
    } else {
        assert(steps.take(count) =~= steps);
    }
}

fn check_actions(steps: &Vec<Step>) -> (out: Result<(), String>)
    ensures
        match actions_fault(steps@, 0) {
            Some(fault) => out matches Err(message) && message@ == fault,
            None => out is Ok,
        },
{
    let mut i: usize = 0;
    while i < steps.len()
        invariant
            i <= steps@.len(),
            actions_fault(steps@, 0) == actions_fault(steps@, i as int),
        decreases steps@.len() - i,
    {
        match check_action(&steps[i].action) {
            Ok(()) => {},
            Err(message) => return Err(message),
        }
        i = i + 1;
    }
    Ok(())
}

impl Recipe {
    /// The actions of all steps are in order.
    pub open spec fn wf(&self) -> bool {
        forall|i: int| 0 <= i < self.steps@.len() ==> action_flaw(
            (#[trigger] self.steps@[i]).action,
        ) is None
    }

    /// Checks a recipe before anything is prepared for it.
    pub fn check(&self) -> (out: Result<(), String>)
        ensures
            match recipe_fault(*self) {
                Some(fault) => out matches Err(message) && message@ == fault,
                None => out is Ok,
            },
    {
        match check_actions(&self.steps) {
            Ok(()) => {},
            Err(message) => return Err(message),
        }
        if self.version != 1 {
            return Err(
                cat2("unsupported recipe version ", decimal(self.version as u128).as_str()),
            );
        }
        if !same(self.desktop.as_str(), "gnome") {
            return Err(cat3("unsupported desktop '", self.desktop.as_str(), "'"));
        }
        if !same(self.language.as_str(), "en") {
            return Err(cat3("unsupported screenshot language '", self.language.as_str(), "'"));
        }
        if !(1 <= self.window.width && self.window.width <= 1000 && 1 <= self.window.height
            && self.window.height <= 700) {
            return Err(owned("window size must be within 1000x700 logical pixels"));
        }
        if let Some(title) = &self.window.title {
            match nonempty(title.as_str(), "window title") {
                Ok(()) => {},
                Err(message) => return Err(message),
            }
        }
        match distinct_names(&self.steps) {
            Err(message) => Err(message),
            Ok(names) => {
                assert(text::views(names@).len() == names@.len());
                if names.len() == 0 {
                    Err(owned("recipe must contain at least one capture"))
                } else {
                    Ok(())
                }
            },
        }
    }
}

/// Names without a fault are all different.
pub proof fn accepted_names_are_distinct(steps: Seq<Step>)
    requires
        names_fault(steps) is None,
    ensures
        capture_names(steps).no_duplicates(),
    decreases steps.len(),
{
    if steps.len() > 0 {
        accepted_names_are_distinct(steps.drop_last());
    }
}

proof fn lemma_actions_in_order(steps: Seq<Step>, from: int)
    requires
        0 <= from,
        actions_fault(steps, from) is None,
    ensures
        forall|i: int| from <= i < steps.len() ==> action_flaw((#[trigger] steps[i]).action) is None,
    decreases steps.len() - from,
{
    if from < steps.len() {
        lemma_actions_in_order(steps, from + 1);
    }
}

proof fn lemma_names_in_order(steps: Seq<Step>)
    requires
        forall|i: int| 0 <= i < steps.len() ==> action_flaw((#[trigger] steps[i]).action) is None,
    ensures
        forall|k: int|
            0 <= k < capture_names(steps).len() ==> name_ok(#[trigger] capture_names(steps)[k]),
    decreases steps.len(),
{
    if steps.len() > 0 {
        let shorter = steps.drop_last();
        assert forall|i: int| 0 <= i < shorter.len() implies action_flaw(
            (#[trigger] shorter[i]).action,
        ) is None by {
            assert(shorter[i] == steps[i]);
        }
        lemma_names_in_order(shorter);
        assert(action_flaw(steps[steps.len() - 1].action) is None);
        let names = capture_names(steps);
        let fewer = capture_names(shorter);
        assert forall|k: int| 0 <= k < names.len() implies name_ok(#[trigger] names[k]) by {
            if k < fewer.len() {
                assert(names[k] == fewer[k]);
            }
        }
    }
}

/// The actions of a recipe that is accepted are in order, and so are the names of its captures.
pub proof fn accepted_recipes_are_in_order(recipe: Recipe)
    requires
        recipe_fault(recipe) is None,
    ensures
        recipe.wf(),
        forall|k: int|
            0 <= k < capture_names(recipe.steps@).len() ==> name_ok(
                #[trigger] capture_names(recipe.steps@)[k],
            ),
{
    lemma_actions_in_order(recipe.steps@, 0);
    lemma_names_in_order(recipe.steps@);
}

/// A step that was taken as it was written never makes a recipe faulty by its action.
pub proof fn steps_in_order_are_accepted(recipe: Recipe)
    requires
        forall|i: int| 0 <= i < recipe.steps@.len() ==> (#[trigger] recipe.steps@[i]).wf(),
    ensures
        actions_fault(recipe.steps@, 0) is None,
{
    lemma_no_flaw(recipe.steps@, 0);
}

proof fn lemma_no_flaw(steps: Seq<Step>, from: int)
    requires
        0 <= from,
        forall|i: int| 0 <= i < steps.len() ==> (#[trigger] steps[i]).wf(),
    ensures
        actions_fault(steps, from) is None,
    decreases steps.len() - from,
{
    if from < steps.len() {
        assert(steps[from].wf());
        lemma_no_flaw(steps, from + 1);
    }
}

/// A recipe that is accepted has at least one capture, no name twice, and a window that fits the
/// screen.
pub proof fn accepted_recipes_capture_something(recipe: Recipe)
    requires
        recipe_fault(recipe) is None,
    ensures
        capture_names(recipe.steps@).len() >= 1,
        capture_names(recipe.steps@).no_duplicates(),
        1 <= recipe.window.width <= 1000,
        1 <= recipe.window.height <= 700,
{
    accepted_names_are_distinct(recipe.steps@);
}

} // verus!
