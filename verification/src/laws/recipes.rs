//! Recipes: which are accepted, what their steps mean, and what the helper is asked for them.
use crate::screenshot::desktop::Input;
use crate::screenshot::helper::Request;
use crate::screenshot::recipe::{Action, RawStep, Recipe, Step};
use crate::screenshot::ToolRun;
use crate::screenshot::{helper, recipe};
use crate::{cli, number, text};
use vstd::prelude::*;

verus! {

// ---------------------------------------------------------------------------
// Keys

/// A name is looked up by the first entry that has it.
pub proof fn names_are_looked_up(table: Seq<(Seq<char>, u32)>, name: Seq<char>)
    ensures
        match recipe::lookup(table, name) {
            Some(value) => exists|i: int|
                {
                    &&& 0 <= i < table.len()
                    &&& #[trigger] table[i] == (name, value)
                    &&& forall|j: int| 0 <= j < i ==> (#[trigger] table[j]).0 != name
                },
            None => forall|j: int| 0 <= j < table.len() ==> (#[trigger] table[j]).0 != name,
        },
    decreases table.len(),
{
    if table.len() > 0 && table[0].0 != name {
        let rest = table.skip(1);
        names_are_looked_up(rest, name);
        assert forall|j: int| 1 <= j < table.len() implies #[trigger] table[j] == rest[j - 1] by {}
        if let Some(value) = recipe::lookup(rest, name) {
            let i = choose|i: int|
                {
                    &&& 0 <= i < rest.len()
                    &&& #[trigger] rest[i] == (name, value)
                    &&& forall|j: int| 0 <= j < i ==> (#[trigger] rest[j]).0 != name
                };
            assert(table[i + 1] == (name, value));
            assert forall|j: int| 0 <= j < i + 1 implies (#[trigger] table[j]).0 != name by {
                if j > 0 {
                    assert(rest[j - 1].0 != name);
                }
            }
        }
    } else if table.len() > 0 {
        assert(table[0] == (name, table[0].1));
    }
}

/// The symbols of the modifiers and of the keys with names.
pub proof fn keys_have_their_symbols()
    ensures
        recipe::modifiers() == seq![
            ("Ctrl"@, 65507u32),
            ("Shift"@, 65505u32),
            ("Alt"@, 65513u32),
            ("Super"@, 65515u32),
        ],
        recipe::named_keys() == seq![
            ("Return"@, 65293u32),
            ("Escape"@, 65307u32),
            ("Tab"@, 65289u32),
            ("BackSpace"@, 65288u32),
            ("Delete"@, 65535u32),
            ("Left"@, 65361u32),
            ("Up"@, 65362u32),
            ("Right"@, 65363u32),
            ("Down"@, 65364u32),
            ("Home"@, 65360u32),
            ("End"@, 65367u32),
            ("PageUp"@, 65365u32),
            ("PageDown"@, 65366u32),
            ("F1"@, 65470u32),
            ("F2"@, 65471u32),
            ("F3"@, 65472u32),
            ("F4"@, 65473u32),
            ("F5"@, 65474u32),
            ("F6"@, 65475u32),
            ("F7"@, 65476u32),
            ("F8"@, 65477u32),
            ("F9"@, 65478u32),
            ("F10"@, 65479u32),
            ("F11"@, 65480u32),
            ("F12"@, 65481u32),
            ("space"@, 32u32),
            ("comma"@, 44u32),
            ("plus"@, 43u32),
        ],
{
}

/// A key is known by its name, or by the printable ASCII character that it types.
pub proof fn keys_are_named_or_typed(key: Seq<char>)
    ensures
        recipe::lookup(recipe::named_keys(), key) matches Some(value) ==> recipe::key_symbol(key)
            == Some(value),
        recipe::lookup(recipe::named_keys(), key) is None ==> (recipe::key_symbol(key) is Some <==> (
        key.len() == 1 && '!' <= key[0] <= '~')),
        recipe::lookup(recipe::named_keys(), key) is None && key.len() == 1 && '!' <= key[0] <= '~'
            ==> recipe::key_symbol(key) == Some(key[0] as u32),
{
}

/// Whether these are the symbols of some modifiers, each pressed once.
pub open spec fn are_modifiers(parts: Seq<Seq<char>>, count: int, symbols: Seq<u32>) -> bool {
    &&& symbols.len() == count
    &&& forall|i: int|
        0 <= i < count ==> recipe::lookup(recipe::modifiers(), #[trigger] parts[i]) == Some(
            symbols[i],
        )
    &&& forall|i: int, j: int| 0 <= i < j < count ==> symbols[i] != symbols[j]
}

proof fn lemma_modifiers(parts: Seq<Seq<char>>, count: int)
    requires
        0 <= count,
    ensures
        recipe::modifier_symbols(parts, count) matches Ok(symbols) ==> are_modifiers(
            parts,
            count,
            symbols,
        ),
    decreases count,
{
    if count > 0 {
        lemma_modifiers(parts, count - 1);
        if let Ok(symbols) = recipe::modifier_symbols(parts, count) {
            let before = recipe::modifier_symbols(parts, count - 1)->Ok_0;
            assert(symbols == before.push(symbols.last()));
            assert forall|i: int| 0 <= i < count implies recipe::lookup(
                recipe::modifiers(),
                #[trigger] parts[i],
            ) == Some(symbols[i]) by {
                if i < count - 1 {
                    assert(symbols[i] == before[i]);
                }
            }
            assert forall|i: int, j: int| 0 <= i < j < count implies symbols[i] != symbols[j] by {
                assert(symbols[i] == before[i]);
                if j < count - 1 {
                    assert(symbols[j] == before[j]);
                } else {
                    assert(before.contains(before[i]));
                }
            }
        }
    }
}

proof fn lemma_modifiers_back(parts: Seq<Seq<char>>, count: int, symbols: Seq<u32>)
    requires
        0 <= count,
        are_modifiers(parts, count, symbols),
    ensures
        recipe::modifier_symbols(parts, count) == Ok::<Seq<u32>, Seq<char>>(symbols),
    decreases count,
{
    if count > 0 {
        let less = symbols.drop_last();
        assert(are_modifiers(parts, count - 1, less)) by {
            assert forall|i: int| 0 <= i < count - 1 implies recipe::lookup(
                recipe::modifiers(),
                #[trigger] parts[i],
            ) == Some(less[i]) by {
                assert(less[i] == symbols[i]);
            }
        }
        lemma_modifiers_back(parts, count - 1, less);
        assert(recipe::lookup(recipe::modifiers(), parts[count - 1]) == Some(symbols.last()));
        assert(!less.contains(symbols.last())) by {
            if less.contains(symbols.last()) {
                let i = choose|i: int| 0 <= i < less.len() && less[i] == symbols.last();
                assert(symbols[i] != symbols[count - 1]);
            }
        }
        assert(less.push(symbols.last()) =~= symbols);
    } else {
        assert(symbols =~= Seq::empty());
    }
}

/// A chord is made of different modifiers and, at its end, one key, with plus signs between them.
/// Its symbols are theirs, in that order.
pub proof fn chords_are_modifiers_and_a_key(chord: Seq<char>, symbols: Seq<u32>)
    ensures
        ({
            let parts = text::split_on(chord, '+');
            recipe::chord_symbols(chord) == Ok::<Seq<u32>, Seq<char>>(symbols) <==> {
                &&& symbols.len() == parts.len()
                &&& are_modifiers(parts, parts.len() - 1, symbols.drop_last())
                &&& recipe::key_symbol(parts.last()) == Some(symbols.last())
            }
        }),
{
    let parts = text::split_on(chord, '+');
    text::lemma_split_pieces(chord, '+');
    let count = parts.len() - 1;
    if recipe::chord_symbols(chord) == Ok::<Seq<u32>, Seq<char>>(symbols) {
        lemma_modifiers(parts, count);
        let before = recipe::modifier_symbols(parts, count)->Ok_0;
        assert(symbols.drop_last() =~= before);
    }
    if symbols.len() == parts.len() && are_modifiers(parts, count, symbols.drop_last()) {
        lemma_modifiers_back(parts, count, symbols.drop_last());
        if recipe::key_symbol(parts.last()) == Some(symbols.last()) {
            assert(symbols.drop_last().push(symbols.last()) =~= symbols);
        }
    }
}

proof fn lemma_first_bad(parts: Seq<Seq<char>>, k: int, count: int, symbols: Seq<u32>)
    requires
        0 <= k < count,
        are_modifiers(parts, k, symbols),
        recipe::modifier_symbols(parts, k + 1) is Err,
    ensures
        recipe::modifier_symbols(parts, count) == recipe::modifier_symbols(parts, k + 1),
    decreases count,
{
    if count > k + 1 {
        lemma_first_bad(parts, k, count - 1, symbols);
    }
}

/// The first part of a chord that is wrong is told: one before the last that is no modifier or was
/// there before, or else the last where it is no key.
pub proof fn wrong_chords_are_told(chord: Seq<char>, k: int, symbols: Seq<u32>)
    requires
        0 <= k < text::split_on(chord, '+').len(),
        are_modifiers(text::split_on(chord, '+'), k, symbols),
    ensures
        ({
            let parts = text::split_on(chord, '+');
            let known = recipe::lookup(recipe::modifiers(), parts[k]);
            &&& k < parts.len() - 1 && known is None ==> recipe::chord_symbols(chord) == Err::<
                Seq<u32>,
                Seq<char>,
            >("unsupported key modifier '"@ + parts[k] + "'"@)
            &&& k < parts.len() - 1 && known is Some && symbols.contains(known->0)
                ==> recipe::chord_symbols(chord) == Err::<Seq<u32>, Seq<char>>(
                "duplicate key modifier '"@ + parts[k] + "'"@,
            )
            &&& k == parts.len() - 1 && recipe::key_symbol(parts[k]) is None
                ==> recipe::chord_symbols(chord) == Err::<Seq<u32>, Seq<char>>(
                "unsupported key '"@ + parts[k] + "'"@,
            )
        }),
{
    let parts = text::split_on(chord, '+');
    lemma_modifiers_back(parts, k, symbols);
    let known = recipe::lookup(recipe::modifiers(), parts[k]);
    if k < parts.len() - 1 && (known is None || symbols.contains(known->0)) {
        assert(recipe::modifier_symbols(parts, k + 1) is Err);
        lemma_first_bad(parts, k, parts.len() - 1, symbols);
    }
}

// ---------------------------------------------------------------------------
// Steps

/// A text that is not blank and holds no NUL.
pub open spec fn is_said(s: Seq<char>) -> bool {
    &&& exists|i: int| 0 <= i < s.len() && !text::is_white(#[trigger] s[i])
    &&& forall|i: int| 0 <= i < s.len() ==> #[trigger] s[i] != '\0'
}

proof fn lemma_blank(s: Seq<char>)
    ensures
        text::trimmed(s).len() == 0 <==> forall|i: int|
            0 <= i < s.len() ==> text::is_white(#[trigger] s[i]),
{
    let white = text::white_chars();
    let n = s.len() as int;
    if forall|i: int| 0 <= i < s.len() ==> text::is_white(#[trigger] s[i]) {
        assert forall|k: int| 0 <= k < n implies white(#[trigger] s[k]) by {}
        text::lemma_trim(s, white, n, n);
    } else {
        lemma_edges(s, 0, n);
    }
}

proof fn lemma_edges(s: Seq<char>, i: int, j: int)
    requires
        0 <= i <= j <= s.len(),
        forall|k: int| 0 <= k < i ==> text::is_white(#[trigger] s[k]),
        forall|k: int| j <= k < s.len() ==> text::is_white(#[trigger] s[k]),
        exists|k: int| 0 <= k < s.len() && !text::is_white(#[trigger] s[k]),
    ensures
        text::trimmed(s).len() > 0,
    decreases j - i,
{
    let white = text::white_chars();
    let held = choose|k: int| 0 <= k < s.len() && !text::is_white(#[trigger] s[k]);
    assert(i <= held < j);
    if text::is_white(s[i]) {
        lemma_edges(s, i + 1, j);
    } else if text::is_white(s[j - 1]) {
        lemma_edges(s, i, j - 1);
    } else {
        assert forall|k: int| 0 <= k < i implies white(#[trigger] s[k]) by {}
        assert forall|k: int| j <= k < s.len() implies white(#[trigger] s[k]) by {}
        text::lemma_trim(s, white, i, j);
    }
}

proof fn lemma_said(s: Seq<char>)
    ensures
        recipe::says_something(s) == is_said(s),
{
    lemma_blank(s);
    if forall|i: int| 0 <= i < s.len() ==> #[trigger] s[i] != '\0' {
        assert(!s.contains('\0'));
    } else {
        let i = choose|i: int| 0 <= i < s.len() && #[trigger] s[i] == '\0';
        assert(s.contains(s[i]));
    }
}

/// A letter or a digit of ASCII, a dash or an underscore.
pub open spec fn may_name(c: char) -> bool {
    'a' <= c <= 'z' || 'A' <= c <= 'Z' || '0' <= c <= '9' || c == '-' || c == '_'
}

/// A name of up to a hundred plain characters.
pub open spec fn good_name(name: Seq<char>) -> bool {
    &&& 1 <= name.len() <= 100
    &&& forall|i: int| 0 <= i < name.len() ==> may_name(#[trigger] name[i])
}

/// Whether a capture is in order: its name, and a caption of one line that says something and does
/// not end with a full stop.
pub open spec fn good_capture(name: Seq<char>, caption: Seq<char>) -> bool {
    &&& good_name(name)
    &&& is_said(caption)
    &&& forall|i: int|
        0 <= i < caption.len() ==> #[trigger] caption[i] != '\n' && caption[i] != '\r'
    &&& text::trimmed_end(caption).len() == 0 || text::trimmed_end(caption).last() != '.'
}

proof fn lemma_holds(s: Seq<char>, c: char)
    ensures
        s.contains(c) <==> !(forall|i: int| 0 <= i < s.len() ==> #[trigger] s[i] != c),
{
    if !(forall|i: int| 0 <= i < s.len() ==> #[trigger] s[i] != c) {
        let i = choose|i: int| 0 <= i < s.len() && #[trigger] s[i] == c;
        assert(s.contains(s[i]));
    }
}

/// A capture is accepted exactly when it is in order, and what is wrong is told: the name first,
/// then a caption that says nothing, then one of several lines or with a full stop.
pub proof fn captures_are_in_order(name: Seq<char>, caption: Seq<char>)
    ensures
        recipe::capture_fault(name, caption) is None <==> good_capture(name, caption),
        !good_name(name) ==> recipe::capture_fault(name, caption) == Some("capture name must contain only letters, digits, '-' or '_'"@),
        good_name(name) && !is_said(caption) ==> recipe::capture_fault(name, caption)
            == Some("caption"@ + " must not be empty or contain NUL"@),
        good_name(name) && is_said(caption) && !good_capture(name, caption)
            ==> recipe::capture_fault(name, caption) == Some(
            "caption must be a single line without a trailing full stop"@,
        ),
{
    reveal_strlit(".");
    lemma_said(caption);
    lemma_holds(caption, '\n');
    lemma_holds(caption, '\r');
    let ended = text::trimmed_end(caption);
    if ended.len() > 0 {
        assert(ended.subrange(ended.len() - 1, ended.len() as int)[0] == ended.last());
        if ended.last() == '.' {
            assert(ended.subrange(ended.len() - 1, ended.len() as int) =~= "."@);
        }
    }
    assert forall|i: int| 0 <= i < name.len() implies may_name(#[trigger] name[i])
        == recipe::name_char(name[i]) by {}
    if forall|i: int| 0 <= i < name.len() ==> may_name(#[trigger] name[i]) {
        assert forall|i: int| 0 <= i < name.len() implies recipe::name_char(
            #[trigger] name[i],
        ) by {
            assert(may_name(name[i]));
        }
    } else {
        let i = choose|i: int| 0 <= i < name.len() && !may_name(#[trigger] name[i]);
        assert(!recipe::name_char(name[i]));
    }
}

/// An action is in order where its texts say something. A text to type may be blank.
pub proof fn actions_are_in_order(action: Action)
    ensures
        recipe::action_flaw(action) is None <==> match action {
            Action::Capture(capture) => good_capture(capture.name@, capture.caption@),
            Action::ClickText(label) => is_said(label@),
            Action::WaitText(label) => is_said(label@),
            Action::TypeText(typed) => typed@.len() > 0 && forall|i: int|
                0 <= i < typed@.len() ==> #[trigger] typed@[i] != '\0',
            Action::SelectWindow(selection) => is_said(selection.title@),
            Action::Key(_) => true,
        },
        action matches Action::ClickText(label) ==> !is_said(label@) ==> recipe::action_flaw(action)
            == Some("click text"@ + " must not be empty or contain NUL"@),
        action matches Action::WaitText(label) ==> !is_said(label@) ==> recipe::action_flaw(action)
            == Some("wait text"@ + " must not be empty or contain NUL"@),
        action matches Action::SelectWindow(selection) ==> !is_said(selection.title@)
            ==> recipe::action_flaw(action) == Some(
            "window title"@ + " must not be empty or contain NUL"@,
        ),
        action is TypeText && recipe::action_flaw(action) is Some ==> recipe::action_flaw(action)
            == Some("type_text must contain nonempty text without NUL"@),
{
    match action {
        Action::Capture(capture) => {
            captures_are_in_order(capture.name@, capture.caption@);
        },
        Action::ClickText(label) => {
            lemma_said(label@);
        },
        Action::WaitText(label) => {
            lemma_said(label@);
        },
        Action::TypeText(typed) => {
            lemma_holds(typed@, '\0');
        },
        Action::SelectWindow(selection) => {
            lemma_said(selection.title@);
        },
        Action::Key(_) => {},
    }
}

/// How many of some things are there.
pub open spec fn how_many(present: Seq<bool>) -> nat {
    present.filter(|there: bool| there).len()
}

/// The actions that a step names.
pub open spec fn named(raw: RawStep) -> Seq<bool> {
    seq![
        raw.capture is Some,
        raw.click_text is Some,
        raw.type_text is Some,
        raw.key is Some,
        raw.wait_text is Some,
        raw.select_window is Some,
    ]
}

proof fn lemma_how_many(present: Seq<bool>)
    ensures
        present.len() > 0 ==> how_many(present) == how_many(present.drop_last()) + if present.last() {
            1nat
        } else {
            0
        },
        present.len() == 0 ==> how_many(present) == 0,
{
    reveal(Seq::filter);
}

/// A step is accepted exactly when it names one action, that action is in order, its key is a chord
/// and its timeout is a time. A wrong chord is told before anything else, then the number of
/// actions, the action, and the timeout.
pub proof fn steps_name_one_action(raw: RawStep)
    ensures
        (raw.key is Some && recipe::chord_symbols(raw.key->0@) is Err) ==> recipe::step_fault(raw)
            == Some(recipe::chord_symbols(raw.key->0@)->Err_0),
        !(raw.key is Some && recipe::chord_symbols(raw.key->0@) is Err) && how_many(named(raw))
            != 1 ==> recipe::step_fault(raw) == Some(
            "each step must contain exactly one action"@,
        ),
        recipe::step_fault(raw) is None ==> how_many(named(raw)) == 1,
        recipe::step_fault(raw) is None && raw.timeout is Some ==> cli::duration_value(
            raw.timeout->0@,
        ) is Ok,
        recipe::step_fault(raw) is None && raw.capture is Some ==> good_capture(
            raw.capture->0.name@,
            raw.capture->0.caption@,
        ),
        recipe::step_fault(raw) is None && raw.click_text is Some ==> is_said(raw.click_text->0@),
        recipe::step_fault(raw) is None && raw.wait_text is Some ==> is_said(raw.wait_text->0@),
        recipe::step_fault(raw) is None && raw.type_text is Some ==> raw.type_text->0@.len() > 0
            && forall|i: int|
            0 <= i < raw.type_text->0@.len() ==> #[trigger] raw.type_text->0@[i] != '\0',
        recipe::step_fault(raw) is None && raw.select_window is Some ==> is_said(
            raw.select_window->0.title@,
        ),
        recipe::step_fault(raw) is None && raw.key is Some ==> recipe::chord_symbols(raw.key->0@)
            is Ok,
        how_many(named(raw)) == 1 && (raw.key is Some ==> recipe::chord_symbols(raw.key->0@) is Ok)
            && (raw.timeout is Some ==> cli::duration_value(raw.timeout->0@) is Ok) && (
        raw.capture is Some ==> good_capture(raw.capture->0.name@, raw.capture->0.caption@)) && (
        raw.click_text is Some ==> is_said(raw.click_text->0@)) && (raw.wait_text is Some
            ==> is_said(raw.wait_text->0@)) && (raw.type_text is Some
            ==> raw.type_text->0@.len() > 0 && !raw.type_text->0@.contains('\0')) && (
        raw.select_window is Some ==> is_said(raw.select_window->0.title@)) ==> recipe::step_fault(
            raw,
        ) is None,
        recipe::step_fault(raw) is None || how_many(named(raw)) != 1 || raw.timeout is None
            || recipe::action_fault(raw) is Some || raw.key is Some && recipe::chord_symbols(
            raw.key->0@,
        ) is Err || recipe::step_fault(raw) == Some(
            cli::duration_value(raw.timeout->0@)->Err_0,
        ),
{
    lemma_count(raw);
    if raw.capture is Some {
        captures_are_in_order(raw.capture->0.name@, raw.capture->0.caption@);
    }
    if raw.click_text is Some {
        lemma_said(raw.click_text->0@);
    }
    if raw.wait_text is Some {
        lemma_said(raw.wait_text->0@);
    }
    if raw.type_text is Some {
        lemma_holds(raw.type_text->0@, '\0');
    }
    if raw.select_window is Some {
        lemma_said(raw.select_window->0.title@);
    }
}

/// What is wrong with the one action of a step is told of that action.
pub proof fn wrong_actions_are_told(raw: RawStep)
    requires
        how_many(named(raw)) == 1,
    ensures
        raw.capture matches Some(capture) ==> (recipe::capture_fault(
            capture.name@,
            capture.caption@,
        ) is Some ==> recipe::step_fault(raw) == recipe::capture_fault(
            capture.name@,
            capture.caption@,
        )),
        raw.click_text matches Some(label) ==> !is_said(label@) ==> recipe::step_fault(raw) == Some(
            "click text"@ + " must not be empty or contain NUL"@,
        ),
        raw.wait_text matches Some(label) ==> !is_said(label@) ==> recipe::step_fault(raw) == Some(
            "wait text"@ + " must not be empty or contain NUL"@,
        ),
        raw.type_text matches Some(typed) ==> (typed@.len() == 0 || typed@.contains('\0'))
            ==> recipe::step_fault(raw) == Some(
            "type_text must contain nonempty text without NUL"@,
        ),
        raw.select_window matches Some(selection) ==> !is_said(selection.title@)
            ==> recipe::step_fault(raw) == Some(
            "window title"@ + " must not be empty or contain NUL"@,
        ),
{
    lemma_count(raw);
    if raw.click_text is Some {
        lemma_said(raw.click_text->0@);
    }
    if raw.wait_text is Some {
        lemma_said(raw.wait_text->0@);
    }
    if raw.select_window is Some {
        lemma_said(raw.select_window->0.title@);
    }
}

proof fn lemma_count(raw: RawStep)
    ensures
        how_many(named(raw)) == recipe::action_count(raw),
{
    let present = named(raw);
    lemma_how_many(present);
    lemma_how_many(present.drop_last());
    lemma_how_many(present.drop_last().drop_last());
    lemma_how_many(present.drop_last().drop_last().drop_last());
    lemma_how_many(present.drop_last().drop_last().drop_last().drop_last());
    lemma_how_many(present.drop_last().drop_last().drop_last().drop_last().drop_last());
    lemma_how_many(
        present.drop_last().drop_last().drop_last().drop_last().drop_last().drop_last(),
    );
}

// ---------------------------------------------------------------------------
// Whole recipes

/// The names of the captures of some steps and of others are those of the first and then those of
/// the others. A step that captures has its capture's name, and another step has none.
pub proof fn captures_are_named_in_order(first: Seq<Step>, second: Seq<Step>)
    ensures
        recipe::capture_names(first + second) == recipe::capture_names(first)
            + recipe::capture_names(second),
        first.len() == 0 ==> recipe::capture_names(first) == Seq::<Seq<char>>::empty(),
        first.len() == 1 && (first[0].action matches Action::Capture(_)) ==> recipe::capture_names(
            first,
        ) == seq![first[0].action->Capture_0.name@],
        first.len() == 1 && !(first[0].action is Capture) ==> recipe::capture_names(first).len()
            == 0,
    decreases second.len(),
{
    if second.len() == 0 {
        assert(first + second =~= first);
        assert(recipe::capture_names(first) + recipe::capture_names(second)
            =~= recipe::capture_names(first));
    } else {
        captures_are_named_in_order(first, second.drop_last());
        assert((first + second).drop_last() =~= first + second.drop_last());
        assert((first + second).last() == second.last());
        if let Action::Capture(capture) = second.last().action {
            assert(recipe::capture_names(first) + recipe::capture_names(second.drop_last()).push(
                capture.name@,
            ) =~= (recipe::capture_names(first) + recipe::capture_names(second.drop_last())).push(
                capture.name@,
            ));
        }
    }
    if first.len() == 1 {
        assert(first.drop_last() =~= Seq::empty());
        assert(recipe::capture_names(first.drop_last()) =~= Seq::empty());
        assert(first.last() == first[0]);
        if let Action::Capture(capture) = first[0].action {
            assert(recipe::capture_names(first) =~= seq![capture.name@]);
        }
    }
}

proof fn lemma_actions(steps: Seq<Step>, from: int)
    requires
        0 <= from,
    ensures
        recipe::actions_fault(steps, from) is None <==> forall|i: int|
            from <= i < steps.len() ==> recipe::action_flaw((#[trigger] steps[i]).action) is None,
    decreases steps.len() - from,
{
    if from < steps.len() {
        lemma_actions(steps, from + 1);
        if recipe::actions_fault(steps, from) is None {
            assert forall|i: int| from <= i < steps.len() implies recipe::action_flaw(
                (#[trigger] steps[i]).action,
            ) is None by {
                if i > from {
                    assert(recipe::actions_fault(steps, from + 1) is None);
                }
            }
        } else if recipe::action_flaw(steps[from].action) is None {
            let i = choose|i: int|
                from + 1 <= i < steps.len() && recipe::action_flaw((#[trigger] steps[i]).action)
                    is Some;
            assert(recipe::action_flaw(steps[i].action) is Some);
        }
    }
}

proof fn lemma_names(steps: Seq<Step>)
    ensures
        recipe::names_fault(steps) is None <==> recipe::capture_names(steps).no_duplicates(),
    decreases steps.len(),
{
    if steps.len() > 0 {
        let less = steps.drop_last();
        lemma_names(less);
        let before = recipe::capture_names(less);
        if let Action::Capture(capture) = steps.last().action {
            let all = before.push(capture.name@);
            if recipe::names_fault(steps) is None {
                assert(all.no_duplicates());
            } else if before.no_duplicates() {
                assert(before.contains(capture.name@));
                let i = choose|i: int| 0 <= i < before.len() && before[i] == capture.name@;
                assert(all[i] == all[before.len() as int]);
                assert(!all.no_duplicates());
            } else {
                let (i, j) = choose|i: int, j: int|
                    0 <= i < before.len() && 0 <= j < before.len() && i != j && before[i]
                        == before[j];
                assert(all[i] == all[j]);
                assert(!all.no_duplicates());
            }
        }
    }
}

/// A recipe is accepted exactly when all its actions are in order, it is of version 1, for GNOME and
/// in English, its window fits into 1000x700, and it has captures, no two of the same name.
pub proof fn recipes_are_accepted(recipe: Recipe)
    ensures
        recipe::recipe_fault(recipe) is None <==> {
            &&& forall|i: int|
                0 <= i < recipe.steps@.len() ==> recipe::action_flaw(
                    (#[trigger] recipe.steps@[i]).action,
                ) is None
            &&& recipe.version == 1
            &&& recipe.desktop@ == "gnome"@
            &&& recipe.language@ == "en"@
            &&& 1 <= recipe.window.width
            &&& recipe.window.width <= 1000
            &&& 1 <= recipe.window.height
            &&& recipe.window.height <= 700
            &&& recipe.window.title is Some ==> is_said(recipe.window.title->0@)
            &&& recipe::capture_names(recipe.steps@).no_duplicates()
            &&& recipe::capture_names(recipe.steps@).len() > 0
        },
{
    lemma_actions(recipe.steps@, 0);
    lemma_names(recipe.steps@);
    if recipe.window.title is Some {
        lemma_said(recipe.window.title->0@);
    }
}

/// What is wrong with a recipe whose actions are in order is told, the first thing first.
pub proof fn wrong_recipes_are_told(recipe: Recipe)
    requires
        recipe::actions_fault(recipe.steps@, 0) is None,
    ensures
        recipe.version != 1 ==> recipe::recipe_fault(recipe) == Some(
            "unsupported recipe version "@ + number::decimal_seq(recipe.version as nat),
        ),
        recipe.version == 1 && recipe.desktop@ != "gnome"@ ==> recipe::recipe_fault(recipe) == Some(
            "unsupported desktop '"@ + recipe.desktop@ + "'"@,
        ),
        recipe.version == 1 && recipe.desktop@ == "gnome"@ && recipe.language@ != "en"@
            ==> recipe::recipe_fault(recipe) == Some(
            "unsupported screenshot language '"@ + recipe.language@ + "'"@,
        ),
        recipe.version == 1 && recipe.desktop@ == "gnome"@ && recipe.language@ == "en"@ && (
        recipe.window.width < 1 || recipe.window.width > 1000 || recipe.window.height < 1
            || recipe.window.height > 700) ==> recipe::recipe_fault(recipe) == Some(
            "window size must be within 1000x700 logical pixels"@,
        ),
        recipe.version == 1 && recipe.desktop@ == "gnome"@ && recipe.language@ == "en"@ && 1
            <= recipe.window.width <= 1000 && 1 <= recipe.window.height <= 700
            && recipe.window.title is None && recipe::capture_names(recipe.steps@).len() == 0
            && recipe::names_fault(recipe.steps@) is None ==> recipe::recipe_fault(recipe) == Some(
            "recipe must contain at least one capture"@,
        ),
{
}

/// The first action that is wrong is told before anything else of a recipe, and the first name that
/// was there before is the one that is told.
pub proof fn the_first_fault_of_a_recipe_is_told(recipe: Recipe, k: int)
    requires
        0 <= k < recipe.steps@.len(),
    ensures
        (forall|i: int|
            0 <= i < k ==> recipe::action_flaw((#[trigger] recipe.steps@[i]).action) is None)
            && recipe::action_flaw(recipe.steps@[k].action) is Some ==> recipe::recipe_fault(recipe)
            == recipe::action_flaw(recipe.steps@[k].action),
        recipe::names_fault(recipe.steps@.take(k)) is None && (
        recipe.steps@[k].action matches Action::Capture(capture) && recipe::capture_names(
            recipe.steps@.take(k),
        ).contains(capture.name@)) ==> recipe::names_fault(recipe.steps@) == Some(
            "duplicate capture name '"@ + recipe.steps@[k].action->Capture_0.name@ + "'"@,
        ),
{
    let steps = recipe.steps@;
    if (forall|i: int| 0 <= i < k ==> recipe::action_flaw((#[trigger] steps[i]).action) is None)
        && recipe::action_flaw(steps[k].action) is Some {
        lemma_first_flaw(steps, 0, k);
    }
    if recipe::names_fault(steps.take(k)) is None && (steps[k].action matches Action::Capture(
        capture,
    ) && recipe::capture_names(steps.take(k)).contains(capture.name@)) {
        assert(steps.take(k + 1).drop_last() =~= steps.take(k));
        assert(steps.take(k + 1).last() == steps[k]);
        lemma_first_name(steps, k + 1, steps.len() as int);
        assert(steps.take(steps.len() as int) =~= steps);
    }
}

proof fn lemma_first_flaw(steps: Seq<Step>, from: int, k: int)
    requires
        0 <= from <= k < steps.len(),
        forall|i: int| from <= i < k ==> recipe::action_flaw((#[trigger] steps[i]).action) is None,
        recipe::action_flaw(steps[k].action) is Some,
    ensures
        recipe::actions_fault(steps, from) == recipe::action_flaw(steps[k].action),
    decreases k - from,
{
    if from < k {
        lemma_first_flaw(steps, from + 1, k);
    }
}

proof fn lemma_first_name(steps: Seq<Step>, k: int, n: int)
    requires
        0 <= k <= n <= steps.len(),
        recipe::names_fault(steps.take(k)) is Some,
    ensures
        recipe::names_fault(steps.take(n)) == recipe::names_fault(steps.take(k)),
    decreases n - k,
{
    if k < n {
        lemma_first_name(steps, k, n - 1);
        assert(steps.take(n).drop_last() =~= steps.take(n - 1));
    }
}

// ---------------------------------------------------------------------------
// The helper

/// A request as JSON: its action, and then the rest of its fields.
pub open spec fn asks(action: Seq<char>, rest: Seq<char>) -> Seq<char> {
    "{\"action\":\""@ + action + "\""@ + rest + "}"@
}

/// What the helper is asked, as it is written.
pub proof fn requests_are_written_as_json(request: Request, app_id: Seq<char>)
    ensures
        ({
            let app = ",\"app_id\":"@ + helper::json_quoted(app_id);
            let json = helper::request_json(request, app_id);
            match request {
                Request::Ping => json == asks("ping"@, Seq::empty()),
                Request::Windows => json == asks("windows"@, Seq::empty()),
                Request::Resize { window, width, height } => json == asks(
                    "resize"@,
                    app + ",\"height\":"@ + number::decimal_seq(height as nat) + ",\"width\":"@
                        + number::decimal_seq(width as nat) + ",\"window\":"@
                        + number::decimal_seq(window as nat),
                ),
                Request::Capture { window, path } => json == asks(
                    "capture"@,
                    app + ",\"path\":"@ + helper::json_quoted(path@) + ",\"window\":"@
                        + number::decimal_seq(window as nat),
                ),
                Request::Input { window, input: Input::Click { x, y } } => json == asks(
                    "click"@,
                    app + ",\"window\":"@ + number::decimal_seq(window as nat) + ",\"x\":"@
                        + helper::halves(x as nat) + ",\"y\":"@ + helper::halves(y as nat),
                ),
                Request::Input { window, input: Input::Key(keys) } => json == asks(
                    "key"@,
                    app + ",\"keys\":["@ + helper::listed(keys@) + "],\"window\":"@
                        + number::decimal_seq(window as nat),
                ),
                Request::Input { window, input: Input::Text(typed) } => json == asks(
                    "type_text"@,
                    app + ",\"text\":"@ + helper::json_quoted(typed@) + ",\"window\":"@
                        + number::decimal_seq(window as nat),
                ),
            }
        }),
{
}

/// Places are told in pixels, with a half where there is one, and lists with commas.
pub proof fn places_and_lists_are_written(count: nat, keys: Seq<u32>, last: u32)
    ensures
        helper::halves(2 * count) == number::decimal_seq(count) + ".0"@,
        helper::halves(2 * count + 1) == number::decimal_seq(count) + ".5"@,
        helper::listed(Seq::empty()) == Seq::<char>::empty(),
        helper::listed(seq![last]) == number::decimal_seq(last as nat),
        keys.len() > 0 ==> helper::listed(keys.push(last)) == helper::listed(keys) + ","@
            + number::decimal_seq(last as nat),
{
    assert((2 * count) / 2 == count && (2 * count) % 2 == 0);
    assert((2 * count + 1) / 2 == count && (2 * count + 1) % 2 == 1);
    let told = |s: Seq<u32>| Seq::new(s.len(), |i: int| number::decimal_seq(s[i] as nat));
    let none = told(Seq::empty());
    assert(none.len() == 0);
    let one = told(seq![last]);
    assert(one =~= seq![number::decimal_seq(last as nat)]);
    assert(text::join_seq(one, ","@) =~= number::decimal_seq(last as nat));
    if keys.len() > 0 {
        let all = told(keys.push(last));
        assert(all.drop_last() =~= told(keys));
        assert(all.last() == number::decimal_seq(last as nat));
    }
}

/// A reply brings a result exactly when the helper ran and succeeded, and wrote JSON that says that
/// all went well. Else the first of these that is not so is told.
pub proof fn replies_say_whether_all_went_well(run: Result<ToolRun, String>)
    ensures
        helper::reply_fault(run) is None <==> (run matches Ok(done) && done.success
            && helper::json_fault(done.stdout@) is None && helper::json_bool(
            done.stdout@,
            "/ok"@,
        ) == Some(true)),
        run matches Err(error) ==> helper::reply_fault(run) == Some((error@, error@)),
        run matches Ok(done) ==> !done.success ==> helper::reply_fault(run) == Some(
            (
                "desktop helper failed: "@ + text::trimmed(text::utf8_lossy(done.stderr@)),
                "desktop helper failed: "@ + text::trimmed(text::utf8_lossy(done.stderr@)),
            ),
        ),
        run matches Ok(done) ==> done.success ==> (helper::json_fault(done.stdout@) matches Some(
            fault,
        ) ==> helper::reply_fault(run) == Some(
            (
                "invalid desktop helper response"@,
                "invalid desktop helper response: "@ + fault,
            ),
        )),
        run matches Ok(done) ==> done.success && helper::json_fault(done.stdout@) is None
            && helper::json_bool(done.stdout@, "/ok"@) != Some(true) ==> (helper::reply_fault(
            run,
        ) matches Some(told) && told.0 == told.1 && told.0 == "desktop helper: "@
            + match helper::json_string(done.stdout@, "/error"@) {
            Some(error) => error,
            None => "unknown error"@,
        }),
{
}

} // verus!
