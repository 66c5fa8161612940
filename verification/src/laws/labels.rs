//! Labels on screenshots: where their words stand, and which button carries them.
use crate::ocr::{ComponentBox, Word};
use crate::laws::{numbers, texts};
use crate::{capture, number, ocr, text};
use vstd::prelude::*;

verus! {

/// The words of a label, one behind the other on one line of a table, from `at` on: the same block,
/// the same paragraph, the same line.
pub open spec fn on_one_line(words: Seq<Word>, label: Seq<Seq<char>>, at: int) -> bool {
    &&& 0 <= at
    &&& at + label.len() <= words.len()
    &&& forall|k: int|
        at <= k < at + label.len() ==> {
            &&& (#[trigger] words[k]).text == label[k - at]
            &&& words[k].line.0 == words[at].line.0
            &&& words[k].line.1 == words[at].line.1
            &&& words[k].line.2 == words[at].line.2
        }
}

/// Whether `middle` is half way between two numbers, rounded towards zero.
pub open spec fn half_way(middle: int, a: int, b: int) -> bool {
    if a + b >= 0 {
        2 * middle <= a + b <= 2 * middle + 1
    } else {
        2 * middle - 1 <= a + b <= 2 * middle
    }
}

/// The smallest box around the words from `from` to `to`.
pub open spec fn surrounds(
    words: Seq<Word>,
    from: int,
    to: int,
    left: int,
    top: int,
    right: int,
    bottom: int,
) -> bool {
    &&& forall|k: int|
        from <= k < to ==> {
            &&& left <= (#[trigger] words[k]).left
            &&& top <= words[k].top
            &&& words[k].left + words[k].width <= right
            &&& words[k].top + words[k].height <= bottom
        }
    &&& exists|k: int| from <= k < to && left == (#[trigger] words[k]).left
    &&& exists|k: int| from <= k < to && top == (#[trigger] words[k]).top
    &&& exists|k: int|
        from <= k < to && right == (#[trigger] words[k]).left + words[k].width
    &&& exists|k: int|
        from <= k < to && bottom == (#[trigger] words[k]).top + words[k].height
}

/// Whether a point is the middle of the smallest box around the words from `from` to `to`.
pub open spec fn is_middle(point: (int, int), words: Seq<Word>, from: int, to: int) -> bool {
    exists|left: int, top: int, right: int, bottom: int|
        {
            &&& #[trigger] surrounds(words, from, to, left, top, right, bottom)
            &&& half_way(point.0, left, right)
            &&& half_way(point.1, top, bottom)
        }
}

/// Whether `places` are, from the first to the last, the numbers below `end` of the words with which
/// the label begins on a line.
pub open spec fn are_the_places(
    places: Seq<int>,
    words: Seq<Word>,
    label: Seq<Seq<char>>,
    end: int,
) -> bool {
    &&& forall|i: int, j: int| 0 <= i < j < places.len() ==> places[i] < places[j]
    &&& forall|at: int|
        #![trigger places.contains(at)]
        #![trigger on_one_line(words, label, at)]
        places.contains(at) <==> at < end && on_one_line(words, label, at)
}

proof fn lemma_outline(words: Seq<Word>, from: int, to: int)
    requires
        0 <= from < to <= words.len(),
    ensures
        ({
            let (left, top, right, bottom) = ocr::outline(words.subrange(from, to));
            surrounds(words, from, to, left, top, right, bottom)
        }),
    decreases to - from,
{
    let part = words.subrange(from, to);
    let (left, top, right, bottom) = ocr::outline(part);
    let last = words[to - 1];
    assert(part.last() == last);
    if to - from > 1 {
        lemma_outline(words, from, to - 1);
        assert(part.drop_last() =~= words.subrange(from, to - 1));
        let (l, t, r, b) = ocr::outline(words.subrange(from, to - 1));
        let kl = choose|k: int| from <= k < to - 1 && l == (#[trigger] words[k]).left;
        let kt = choose|k: int| from <= k < to - 1 && t == (#[trigger] words[k]).top;
        let kr = choose|k: int|
            from <= k < to - 1 && r == (#[trigger] words[k]).left + words[k].width;
        let kb = choose|k: int|
            from <= k < to - 1 && b == (#[trigger] words[k]).top + words[k].height;
        assert(left == words[if left == l { kl } else { to - 1 }].left);
        assert(top == words[if top == t { kt } else { to - 1 }].top);
        let at_right = if right == r { kr } else { to - 1 };
        assert(right == words[at_right].left + words[at_right].width);
        let at_bottom = if bottom == b { kb } else { to - 1 };
        assert(bottom == words[at_bottom].top + words[at_bottom].height);
    } else {
        assert(words[from] == last);
    }
}

proof fn lemma_stands(words: Seq<Word>, label: Seq<Seq<char>>, at: int)
    requires
        label.len() > 0,
    ensures
        ocr::stands_at(words, label, at) == on_one_line(words, label, at),
{
    if ocr::stands_at(words, label, at) {
        assert forall|k: int| at <= k < at + label.len() implies {
            &&& (#[trigger] words[k]).text == label[k - at]
            &&& words[k].line == words[at].line
        } by {
            assert(words[at + (k - at)].text == label[k - at]);
        }
    }
    if on_one_line(words, label, at) {
        assert forall|k: int| 0 <= k < label.len() implies (#[trigger] words[at + k]).text
            == label[k] && words[at + k].line == words[at].line by {
            assert(words[at + k].text == label[(at + k) - at]);
        }
    }
}

proof fn lemma_places(words: Seq<Word>, label: Seq<Seq<char>>, end: int) -> (places: Seq<int>)
    requires
        label.len() > 0,
        0 <= end <= words.len(),
    ensures
        are_the_places(places, words, label, end),
        places.len() == ocr::centers_before(words, label, end).len(),
        forall|i: int|
            0 <= i < places.len() ==> is_middle(
                ocr::centers_before(words, label, end)[i],
                words,
                #[trigger] places[i],
                places[i] + label.len(),
            ),
    decreases end,
{
    if end <= 0 {
        let none = Seq::<int>::empty();
        assert forall|at: int|
            #![trigger none.contains(at)]
            #![trigger on_one_line(words, label, at)]
            none.contains(at) <==> at < end && on_one_line(words, label, at) by {}
        none
    } else {
        let before = lemma_places(words, label, end - 1);
        let at = end - 1;
        lemma_stands(words, label, at);
        if on_one_line(words, label, at) {
            let places = before.push(at);
            let to = at + label.len();
            lemma_outline(words, at, to);
            let (left, top, right, bottom) = ocr::outline(ocr::window(words, label, at));
            assert(surrounds(words, at, to, left, top, right, bottom));
            assert(is_middle(ocr::center(ocr::window(words, label, at)), words, at, to));
            assert forall|i: int, j: int| 0 <= i < j < places.len() implies places[i]
                < places[j] by {
                assert(before.contains(before[i]));
                assert(on_one_line(words, label, before[i]));
            }
            assert forall|p: int|
                #![trigger places.contains(p)]
                #![trigger on_one_line(words, label, p)]
                places.contains(p) <==> p < end && on_one_line(words, label, p) by {
                if places.contains(p) {
                    let i = choose|i: int| 0 <= i < places.len() && places[i] == p;
                    if i < before.len() {
                        assert(before.contains(before[i]));
                    }
                }
                if p < end && on_one_line(words, label, p) {
                    if p < at {
                        assert(before.contains(p));
                        let i = choose|i: int| 0 <= i < before.len() && before[i] == p;
                        assert(places[i] == p);
                    } else {
                        assert(places[before.len() as int] == p);
                    }
                }
            }
            places
        } else {
            assert forall|p: int|
                #![trigger before.contains(p)]
                #![trigger on_one_line(words, label, p)]
                before.contains(p) <==> p < end && on_one_line(words, label, p) by {}
            before
        }
    }
}

/// The places of a label in a table are, in order, the middles of the boxes around its words
/// wherever these follow one another on one line, and no others.
pub proof fn labels_stand_on_single_lines(words: Seq<Word>, label: Seq<Seq<char>>)
    requires
        label.len() > 0,
    ensures
        exists|places: Seq<int>|
            {
                &&& #[trigger] are_the_places(places, words, label, words.len() as int)
                &&& places.len() == ocr::text_centers(words, label).len()
                &&& forall|i: int|
                    0 <= i < places.len() ==> is_middle(
                        ocr::text_centers(words, label)[i],
                        words,
                        #[trigger] places[i],
                        places[i] + label.len(),
                    )
            },
{
    let places = lemma_places(words, label, words.len() as int);
    assert(are_the_places(places, words, label, words.len() as int));
}

/// A label whose words no single line of a table holds in a row stands nowhere, and a label without
/// words stands nowhere.
pub proof fn labels_on_no_line_stand_nowhere(words: Seq<Word>, label: Seq<Seq<char>>)
    requires
        label.len() == 0 || forall|at: int| !#[trigger] on_one_line(words, label, at),
    ensures
        ocr::text_centers(words, label).len() == 0,
{
    if label.len() > 0 {
        let places = lemma_places(words, label, words.len() as int);
        if places.len() > 0 {
            assert(places.contains(places[0]));
        }
    }
}

// ---------------------------------------------------------------------------
// Words

/// A word is taken in lower case and without what stands around its letters and numbers.
pub proof fn words_lose_their_punctuation(front: Seq<char>, word: Seq<char>, back: Seq<char>)
    requires
        forall|i: int| 0 <= i < front.len() ==> !ocr::alphanumeric(#[trigger] front[i]),
        forall|i: int| 0 <= i < back.len() ==> !ocr::alphanumeric(#[trigger] back[i]),
        word.len() > 0 ==> ocr::alphanumeric(word[0]) && ocr::alphanumeric(word.last()),
    ensures
        ocr::normal_word(front + word + back) == text::lower_seq(word),
{
    let all = front + word + back;
    let drop = ocr::word_edges();
    let i = front.len() as int;
    let j = i + word.len();
    assert forall|k: int| 0 <= k < i implies drop(#[trigger] all[k]) by {
        assert(all[k] == front[k]);
    }
    assert forall|k: int| j <= k < all.len() implies drop(#[trigger] all[k]) by {
        assert(all[k] == back[k - j]);
    }
    if word.len() > 0 {
        assert(all[i] == word[0]);
        assert(all[j - 1] == word.last());
        text::lemma_trim(all, drop, i, j);
        assert(all.subrange(i, j) =~= word);
    } else {
        let n = all.len() as int;
        text::lemma_trim(all, drop, n, n);
        assert(all.subrange(n, n) =~= word);
    }
}

proof fn lemma_normal_forms(first: Seq<Seq<char>>, second: Seq<Seq<char>>)
    ensures
        ocr::normal_forms(first + second) == ocr::normal_forms(first) + ocr::normal_forms(second),
    decreases second.len(),
{
    if second.len() == 0 {
        assert(first + second =~= first);
        assert(ocr::normal_forms(first) + ocr::normal_forms(second) =~= ocr::normal_forms(first));
    } else {
        lemma_normal_forms(first, second.drop_last());
        assert((first + second).drop_last() =~= first + second.drop_last());
        assert((first + second).last() == second.last());
        let form = ocr::normal_word(second.last());
        assert(ocr::normal_forms(first) + ocr::normal_forms(second.drop_last()).push(form) =~= (
        ocr::normal_forms(first) + ocr::normal_forms(second.drop_last())).push(form));
    }
}

/// White space parts the words of a label, and a word of which nothing is left is no word.
pub proof fn labels_are_read_word_by_word(first: Seq<char>, c: char, second: Seq<char>)
    ensures
        text::is_white(c) ==> ocr::normal_words(first + seq![c] + second) == ocr::normal_words(
            first,
        ) + ocr::normal_words(second),
        texts::no_white(first) ==> ocr::normal_words(first) == if ocr::normal_word(first).len()
            == 0 {
            Seq::empty()
        } else {
            seq![ocr::normal_word(first)]
        },
{
    texts::white_space_parts_words(first, c, second);
    if text::is_white(c) {
        lemma_normal_forms(text::words_of(first), text::words_of(second));
    }
    if texts::no_white(first) {
        if first.len() > 0 {
            let one = seq![first];
            assert(one.drop_last() =~= Seq::empty());
            assert(ocr::normal_forms(one.drop_last()) =~= Seq::empty());
            assert(ocr::normal_forms(one) =~= if ocr::normal_word(first).len() == 0 {
                Seq::empty()
            } else {
                seq![ocr::normal_word(first)]
            });
        } else {
            assert(first =~= Seq::empty());
            words_lose_their_punctuation(first, first, first);
            assert(first + first + first =~= first);
            assert(ocr::normal_words(first) =~= Seq::empty());
        }
    }
}

/// A line of a table with twelve columns or more describes the word in the twelfth, by the numbers
/// in those for the block, the paragraph, the line, the place and the size.
pub proof fn lines_of_a_table_describe_words(
    line: Seq<char>,
    columns: Seq<Seq<char>>,
    numbers: Seq<int>,
)
    requires
        text::split_on(line, '\t') == columns,
        columns.len() >= 12,
        numbers.len() == 7,
        forall|i: int| 0 <= i < 7 ==> i32::MIN <= #[trigger] numbers[i] <= i32::MAX,
        columns[2] == number::decimal_int(numbers[0]),
        columns[3] == number::decimal_int(numbers[1]),
        columns[4] == number::decimal_int(numbers[2]),
        columns[6] == number::decimal_int(numbers[3]),
        columns[7] == number::decimal_int(numbers[4]),
        columns[8] == number::decimal_int(numbers[5]),
        columns[9] == number::decimal_int(numbers[6]),
    ensures
        ({
            let word = ocr::normal_word(text::trimmed(columns[11]));
            if word.len() == 0 {
                ocr::described_word(line) is None
            } else {
                ocr::described_word(line) == Some(
                    Word {
                        text: word,
                        line: (numbers[0], numbers[1], numbers[2]),
                        left: numbers[3],
                        top: numbers[4],
                        width: numbers[5],
                        height: numbers[6],
                    },
                )
            }
        }),
{
    let min = i32::MIN as int;
    let max = i32::MAX as int;
    numbers::written_numbers_are_read_back(numbers[0], min, max);
    numbers::written_numbers_are_read_back(numbers[1], min, max);
    numbers::written_numbers_are_read_back(numbers[2], min, max);
    numbers::written_numbers_are_read_back(numbers[3], min, max);
    numbers::written_numbers_are_read_back(numbers[4], min, max);
    numbers::written_numbers_are_read_back(numbers[5], min, max);
    numbers::written_numbers_are_read_back(numbers[6], min, max);
}

/// A line of a table with fewer columns, or without a number where one belongs, describes nothing.
pub proof fn bad_lines_describe_nothing(line: Seq<char>, i: int)
    requires
        text::split_on(line, '\t').len() < 12 || ((i == 2 || i == 3 || i == 4 || i == 6 || i == 7
            || i == 8 || i == 9) && number::parse_signed(
            text::split_on(line, '\t')[i],
            i32::MIN as int,
            i32::MAX as int,
        ) is None),
    ensures
        ocr::described_word(line) is None,
{
}

proof fn lemma_described_words(line: Seq<char>, lines: Seq<Seq<char>>)
    ensures
        ocr::described_words(seq![line] + lines) == (match ocr::described_word(line) {
            Some(word) => seq![word],
            None => Seq::empty(),
        }) + ocr::described_words(lines),
    decreases lines.len(),
{
    reveal_with_fuel(ocr::described_words, 2);
    let all = seq![line] + lines;
    let first = match ocr::described_word(line) {
        Some(word) => seq![word],
        None => Seq::empty(),
    };
    if lines.len() == 0 {
        assert(all =~= seq![line]);
        assert(all.drop_last() =~= Seq::empty());
        assert(ocr::described_words(all) =~= first);
        assert(first + ocr::described_words(lines) =~= first);
    } else {
        lemma_described_words(line, lines.drop_last());
        assert(all.drop_last() =~= seq![line] + lines.drop_last());
        assert(all.last() == lines.last());
        if let Some(word) = ocr::described_word(lines.last()) {
            assert(first + ocr::described_words(lines.drop_last()).push(word) =~= (first
                + ocr::described_words(lines.drop_last())).push(word));
        }
    }
}

/// The first line of a table is left out. Of the others, each that describes a word gives it, in
/// order.
pub proof fn tables_are_read_line_by_line(
    names: Seq<char>,
    line: Seq<char>,
    rest: Seq<char>,
    behind: Seq<Seq<char>>,
)
    requires
        !names.contains('\n'),
        text::lines_of(rest) == seq![line] + behind,
    ensures
        ocr::table_words(names + seq!['\n'] + rest) == (match ocr::described_word(line) {
            Some(word) => seq![word],
            None => Seq::empty(),
        }) + ocr::described_words(behind),
        ocr::table_words(names) == Seq::<Word>::empty(),
        ocr::described_words(seq![line] + behind) == (match ocr::described_word(line) {
            Some(word) => seq![word],
            None => Seq::empty(),
        }) + ocr::described_words(behind),
        ocr::described_words(Seq::empty()) == Seq::<Word>::empty(),
{
    texts::line_feeds_end_lines(names, rest);
    lemma_described_words(line, behind);
    let all = text::lines_of(names + seq!['\n'] + rest);
    assert(all.skip(1) =~= seq![line] + behind);
    if names.len() > 0 {
        assert(text::lines_of(names).skip(1) =~= Seq::empty());
    }
}

// ---------------------------------------------------------------------------
// Errors

/// What an app that failed shows.
pub open spec fn complaints() -> Seq<Seq<char>> {
    seq![
        "secret portal error"@,
        "unexpected error"@,
        "fatal error"@,
        "unhandled exception"@,
        "application error"@,
        "something went wrong"@,
    ]
}

/// A text tells of an error exactly when one of the complaints stands in it. The first of those in
/// the list that do is named.
pub proof fn complaints_tell_of_errors(flowing: Seq<char>)
    ensures
        ocr::first_marker(flowing, 0) is None <==> forall|k: int|
            0 <= k < complaints().len() ==> !text::occurs(flowing, #[trigger] complaints()[k]),
        ocr::first_marker(flowing, 0) matches Some(marker) ==> exists|k: int|
            {
                &&& 0 <= k < complaints().len()
                &&& #[trigger] complaints()[k] == marker
                &&& text::occurs(flowing, marker)
                &&& forall|j: int|
                    0 <= j < k ==> !text::occurs(flowing, #[trigger] complaints()[j])
            },
{
    reveal_with_fuel(ocr::first_marker, 7);
    let list = complaints();
    assert(list[0] == "secret portal error"@);
    assert(list[1] == "unexpected error"@);
    assert(list[2] == "fatal error"@);
    assert(list[3] == "unhandled exception"@);
    assert(list[4] == "application error"@);
    assert(list[5] == "something went wrong"@);
    assert(list.len() == 6);
    assert(ocr::error_markers() =~= list);
}

proof fn lemma_join(first: Seq<Seq<char>>, second: Seq<Seq<char>>, separator: Seq<char>)
    requires
        first.len() > 0,
        second.len() > 0,
    ensures
        text::join_seq(first + second, separator) == text::join_seq(first, separator) + separator
            + text::join_seq(second, separator),
    decreases second.len(),
{
    let all = first + second;
    assert(all.last() == second.last());
    assert(all.drop_last() =~= first + second.drop_last());
    if second.len() == 1 {
        assert(all.drop_last() =~= first);
        assert(text::join_seq(second, separator) =~= second[0]);
    } else {
        lemma_join(first, second.drop_last(), separator);
        assert(text::join_seq(all, separator) =~= text::join_seq(first, separator) + separator
            + text::join_seq(second, separator));
    }
}

/// The words of a text are put together in lower case with one space between them, whatever white
/// space was there.
pub proof fn texts_flow_on(first: Seq<char>, c: char, second: Seq<char>)
    requires
        text::words_of(first).len() > 0,
        text::words_of(second).len() > 0,
        text::is_white(c),
    ensures
        ocr::flowing_text(first + seq![c] + second) == ocr::flowing_text(first) + seq![' ']
            + ocr::flowing_text(second),
        texts::no_white(first) ==> ocr::flowing_text(first) == text::lower_seq(first),
{
    reveal_strlit(" ");
    texts::white_space_parts_words(first, c, second);
    lemma_join(text::words_of(first), text::words_of(second), " "@);
    let a = text::join_seq(text::words_of(first), " "@);
    let b = text::join_seq(text::words_of(second), " "@);
    assert(" "@ =~= seq![' ']);
    assert(text::lower_seq(a + " "@ + b) =~= text::lower_seq(a) + seq![' '] + text::lower_seq(b));
    if texts::no_white(first) && first.len() > 0 {
        assert(text::join_seq(seq![first], " "@) =~= first);
    }
}

// ---------------------------------------------------------------------------
// Buttons

/// A button is between 80 and 640 wide, between 24 and 96 high, at least twice as wide as high, and
/// fills nine twentieths of its box or more.
pub proof fn buttons_have_their_size_and_shape(found: ComponentBox)
    ensures
        ocr::button_like(found) <==> {
            &&& found.width >= 80
            &&& found.width <= 640
            &&& found.height >= 24
            &&& found.height <= 96
            &&& found.width >= 2 * found.height
            &&& 20 * found.area >= 9 * (found.width * found.height)
        },
{
    let size = found.width * found.height;
    assert(found.width * found.height * 45 == size * 45);
}

/// A box is written as its width, its height and its place, and is read back from that.
pub proof fn boxes_are_read_back(button: ComponentBox)
    ensures
        capture::geometry(button) == number::decimal_int(button.width as int) + seq!['x']
            + number::decimal_int(button.height as int) + seq!['+'] + number::decimal_int(
            button.x as int,
        ) + seq!['+'] + number::decimal_int(button.y as int),
        ocr::written_box(capture::geometry(button)) == Some(ComponentBox { area: 0, ..button }),
{
    reveal_strlit("x");
    reveal_strlit("+");
    assert("x"@ =~= seq!['x']);
    assert("+"@ =~= seq!['+']);
    let min = i32::MIN as int;
    let max = i32::MAX as int;
    let width = number::decimal_int(button.width as int);
    let height = number::decimal_int(button.height as int);
    let x = number::decimal_int(button.x as int);
    let y = number::decimal_int(button.y as int);
    numbers::written_numbers_are_read_back(button.width as int, min, max);
    numbers::written_numbers_are_read_back(button.height as int, min, max);
    numbers::written_numbers_are_read_back(button.x as int, min, max);
    numbers::written_numbers_are_read_back(button.y as int, min, max);
    lemma_plain_number(button.width as int);
    lemma_plain_number(button.height as int);
    lemma_plain_number(button.x as int);
    let place = x + seq!['+'] + y;
    let rest = height + seq!['+'] + place;
    let all = width + seq!['x'] + rest;
    assert(capture::geometry(button) =~= all);
    texts::separators_part_pieces(width, 'x', rest);
    texts::separators_part_pieces(height, '+', place);
    texts::separators_part_pieces(x, '+', y);
}

proof fn lemma_plain_number(n: int)
    ensures
        !number::decimal_int(n).contains('x'),
        !number::decimal_int(n).contains('+'),
{
    let size = if n < 0 {
        (-n) as nat
    } else {
        n as nat
    };
    number::decimal_form_reads_back(size);
    let digits = number::decimal_seq(size);
    let all = number::decimal_int(n);
    assert forall|i: int| 0 <= i < all.len() implies all[i] != 'x' && all[i] != '+' by {
        if n < 0 {
            if i > 0 {
                assert(all[i] == digits[i - 1]);
                assert(text::is_digit(digits[i - 1]));
            }
        } else {
            assert(text::is_digit(digits[i]));
        }
    }
}

/// A line of a report that has a number with a colon, a box, a word and an area describes a
/// component.
pub proof fn lines_of_a_report_describe_components(
    line: Seq<char>,
    id: nat,
    found: ComponentBox,
    middle: Seq<char>,
    behind: Seq<Seq<char>>,
)
    requires
        text::words_of(line) == seq![
            number::decimal_seq(id) + seq![':'],
            capture::geometry(found),
            middle,
            number::decimal_int(found.area as int),
        ] + behind,
        id <= usize::MAX,
    ensures
        ocr::reported_component(line) == Some(found),
{
    reveal_strlit(":");
    assert(":"@ =~= seq![':']);
    let parts = text::words_of(line);
    let front = number::decimal_seq(id);
    assert(parts[0] == front + seq![':']);
    assert(parts[1] == capture::geometry(found));
    assert(parts[3] == number::decimal_int(found.area as int));
    assert(parts[0].subrange(parts[0].len() - 1, parts[0].len() as int) =~= ":"@);
    assert(parts[0].take(parts[0].len() - 1) =~= front);
    number::parse_of_decimal(id, usize::MAX as nat);
    boxes_are_read_back(found);
    numbers::written_numbers_are_read_back(
        found.area as int,
        i32::MIN as int,
        i32::MAX as int,
    );
}

/// A line of a report with fewer words, without a number and a colon in front, without a box or
/// without an area describes nothing.
pub proof fn other_lines_of_a_report_describe_nothing(line: Seq<char>)
    requires
        ({
            let parts = text::words_of(line);
            ||| parts.len() < 4
            ||| parts[0].len() == 0
            ||| parts[0].last() != ':'
            ||| number::parse_unsigned(parts[0].drop_last(), usize::MAX as nat) is None
            ||| ocr::written_box(parts[1]) is None
            ||| number::parse_signed(parts[3], i32::MIN as int, i32::MAX as int) is None
        }),
    ensures
        ocr::reported_component(line) is None,
{
    reveal_strlit(":");
    let parts = text::words_of(line);
    if parts.len() >= 4 && parts[0].len() > 0 {
        let n = parts[0].len();
        assert(parts[0].subrange(n - 1, n as int)[0] == parts[0].last());
        assert(parts[0].take(n - 1) =~= parts[0].drop_last());
    }
}

/// The buttons of a report are, in order, the components of its lines that look like buttons.
pub proof fn buttons_are_reported_line_by_line(first: Seq<Seq<char>>, second: Seq<Seq<char>>)
    ensures
        ocr::reported_buttons(first + second) == ocr::reported_buttons(first)
            + ocr::reported_buttons(second),
        first.len() == 0 ==> ocr::reported_buttons(first).len() == 0,
        first.len() == 1 ==> ocr::reported_buttons(first) == match ocr::reported_component(
            first[0],
        ) {
            Some(found) => if ocr::button_like(found) {
                seq![found]
            } else {
                Seq::empty()
            },
            None => Seq::empty(),
        },
    decreases second.len(),
{
    if second.len() == 0 {
        assert(first + second =~= first);
        assert(ocr::reported_buttons(first) + ocr::reported_buttons(second)
            =~= ocr::reported_buttons(first));
    } else {
        buttons_are_reported_line_by_line(first, second.drop_last());
        assert((first + second).drop_last() =~= first + second.drop_last());
        assert((first + second).last() == second.last());
        if let Some(found) = ocr::reported_component(second.last()) {
            if ocr::button_like(found) {
                assert(ocr::reported_buttons(first) + ocr::reported_buttons(
                    second.drop_last(),
                ).push(found) =~= (ocr::reported_buttons(first) + ocr::reported_buttons(
                    second.drop_last(),
                )).push(found));
            }
        }
    }
    if first.len() == 1 {
        assert(first.drop_last() =~= Seq::empty());
        assert(first.last() == first[0]);
        assert(ocr::reported_buttons(first.drop_last()) =~= Seq::empty());
    }
}

// ---------------------------------------------------------------------------
// Places on the screen

/// Whether a number is one of 32 bits.
pub open spec fn has_32_bits(n: int) -> bool {
    -0x8000_0000 <= n < 0x8000_0000
}

/// Whether the edges of the words from `from` to `to`, and the sums of the edges of the box around
/// them, are numbers of 32 bits.
pub open spec fn edges_fit(words: Seq<Word>, from: int, to: int) -> bool {
    &&& forall|k: int|
        from <= k < to ==> has_32_bits((#[trigger] words[k]).left + words[k].width) && has_32_bits(
            words[k].top + words[k].height,
        )
    &&& forall|left: int, top: int, right: int, bottom: int|
        #[trigger] surrounds(words, from, to, left, top, right, bottom) ==> has_32_bits(
            left + right,
        ) && has_32_bits(top + bottom)
}

proof fn lemma_one_box(
    words: Seq<Word>,
    from: int,
    to: int,
    a: (int, int, int, int),
    b: (int, int, int, int),
)
    requires
        surrounds(words, from, to, a.0, a.1, a.2, a.3),
        surrounds(words, from, to, b.0, b.1, b.2, b.3),
    ensures
        a == b,
{
}

proof fn lemma_center_fits(words: Seq<Word>, from: int, to: int)
    requires
        0 <= from < to <= words.len(),
    ensures
        ocr::center_fits(words.subrange(from, to)) == edges_fit(words, from, to),
{
    let part = words.subrange(from, to);
    let (left, top, right, bottom) = ocr::outline(part);
    lemma_outline(words, from, to);
    if ocr::center_fits(part) {
        assert forall|k: int| from <= k < to implies has_32_bits(
            (#[trigger] words[k]).left + words[k].width,
        ) && has_32_bits(words[k].top + words[k].height) by {
            assert(part[k - from] == words[k]);
        }
        assert forall|l: int, t: int, r: int, b: int|
            #[trigger] surrounds(words, from, to, l, t, r, b) implies has_32_bits(l + r)
            && has_32_bits(t + b) by {
            lemma_one_box(words, from, to, (l, t, r, b), (left, top, right, bottom));
        }
    }
    if edges_fit(words, from, to) {
        assert(surrounds(words, from, to, left, top, right, bottom));
        assert forall|i: int| 0 <= i < part.len() implies ocr::fits_i32(
            (#[trigger] part[i]).left + part[i].width,
        ) && ocr::fits_i32(part[i].top + part[i].height) by {
            assert(part[i] == words[from + i]);
        }
    }
}

/// The places of a label can be told where all the edges that they are computed from are numbers of
/// 32 bits, and only there.
pub proof fn places_are_told_in_32_bits(shown: Seq<char>, wanted: Seq<char>)
    ensures
        ({
            let words = ocr::table_words(shown);
            let label = ocr::normal_words(wanted);
            ocr::centers_fit(shown, wanted) <==> (label.len() == 0 || forall|at: int|
                #[trigger] on_one_line(words, label, at) ==> edges_fit(
                    words,
                    at,
                    at + label.len(),
                ))
        }),
{
    let words = ocr::table_words(shown);
    let label = ocr::normal_words(wanted);
    if label.len() > 0 {
        if ocr::centers_fit(shown, wanted) {
            assert forall|at: int| #[trigger] on_one_line(words, label, at) implies edges_fit(
                words,
                at,
                at + label.len(),
            ) by {
                lemma_stands(words, label, at);
                assert(ocr::stands_at(words, label, at));
                lemma_center_fits(words, at, at + label.len());
            }
        }
        if forall|at: int|
            #[trigger] on_one_line(words, label, at) ==> edges_fit(words, at, at + label.len()) {
            assert forall|at: int|
                0 <= at < words.len() && #[trigger] ocr::stands_at(words, label, at) implies
                ocr::center_fits(ocr::window(words, label, at)) by {
                lemma_stands(words, label, at);
                assert(on_one_line(words, label, at));
                lemma_center_fits(words, at, at + label.len());
            }
        }
    }
}

/// Buttons can be told where a hundred times their area is a number of 32 bits, and only there. Their
/// middles can be clicked where they are such numbers.
pub proof fn buttons_are_told_in_32_bits(found: ComponentBox, lines: Seq<Seq<char>>)
    ensures
        ocr::area_fits(found) <==> (80 <= found.width <= 640 && 24 <= found.height <= 96
            && found.width >= 2 * found.height ==> has_32_bits(100 * found.area)),
        found.width >= 0 && found.height >= 0 ==> (found.center_fits() <==> has_32_bits(
            found.x + found.width as int / 2,
        ) && has_32_bits(found.y + found.height as int / 2)),
        ocr::areas_fit(lines) <==> forall|i: int|
            0 <= i < lines.len() && ocr::reported_component(#[trigger] lines[i]) is Some
                ==> ocr::area_fits(ocr::reported_component(lines[i])->0),
{
    if ocr::areas_fit(lines) {
        assert forall|i: int|
            0 <= i < lines.len() && ocr::reported_component(#[trigger] lines[i]) is Some implies
            ocr::area_fits(ocr::reported_component(lines[i])->0) by {}
    }
    if forall|i: int|
        0 <= i < lines.len() && ocr::reported_component(#[trigger] lines[i]) is Some
            ==> ocr::area_fits(ocr::reported_component(lines[i])->0) {
        assert forall|i: int| 0 <= i < lines.len() implies ((#[trigger] ocr::reported_component(
            lines[i],
        )) matches Some(found) ==> ocr::area_fits(found)) by {
            assert(lines[i] == lines[i]);
        }
    }
}

} // verus!
