//! What recognised text says: where words stand on a screenshot, and whether they tell of an
//! error.
use crate::number::{decimal_signed, parse_i32, parse_usize};
use crate::result::FailureReason;
use crate::session::SessionError;
use crate::text::{
    ascii_lower, cat2, cat3, cat4, chars, contains, join, lines, split, split_once,
    strip_suffix, substring, trim, words,
};
use crate::{number, text};
use vstd::prelude::*;

verus! {

// ---------------------------------------------------------------------------
// Normal forms

/// What `char::is_alphanumeric` says of a character.
pub uninterp spec fn alphanumeric(c: char) -> bool;

/// `char::is_alphanumeric`: whether a character is a letter or a number depends on it alone. Of the
/// ASCII characters, the letters and the digits are.
pub assume_specification[ char::is_alphanumeric ](c: char) -> (yes: bool)
    ensures
        yes == alphanumeric(c),
        text::is_ascii(c) ==> yes == text::is_ascii_alnum(c),
;

/// The characters at the ends of a word that do not belong to it.
pub open spec fn word_edges() -> spec_fn(char) -> bool {
    |c: char| !alphanumeric(c)
}

/// A word in lower case, without punctuation around it.
pub open spec fn normal_word(word: Seq<char>) -> Seq<char> {
    text::lower_seq(text::trim_by(word, word_edges()))
}

/// The normal forms of words, without the empty ones.
pub open spec fn normal_forms(words: Seq<Seq<char>>) -> Seq<Seq<char>>
    decreases words.len(),
{
    if words.len() == 0 {
        Seq::empty()
    } else if normal_word(words.last()).len() == 0 {
        normal_forms(words.drop_last())
    } else {
        normal_forms(words.drop_last()).push(normal_word(words.last()))
    }
}

/// The normal forms of the words of a text.
pub open spec fn normal_words(written: Seq<char>) -> Seq<Seq<char>> {
    normal_forms(text::words_of(written))
}

/// Whether `c` was found to belong to a word.
spec fn inside(c: char) -> bool {
    alphanumeric(c) && (text::is_ascii(c) ==> text::is_ascii_alnum(c))
}

/// Whether `c` was found not to belong to a word.
spec fn outside(c: char) -> bool {
    !alphanumeric(c) && (text::is_ascii(c) ==> !text::is_ascii_alnum(c))
}

/// A word in lower case, without punctuation around it.
pub fn normalize_ocr_word(word: &str) -> (out: String)
    ensures
        out@ == normal_word(word@),
        text::all_ascii(word@) ==> out@ == text::lower_seq(
            text::trim_by(word@, |c: char| !text::is_ascii_alnum(c)),
        ),
{
    let all = chars(word);
    let mut from: usize = 0;
    while from < all.len() && !all[from].is_alphanumeric()
        invariant
            from <= all@.len(),
            all@ == word@,
            forall|k: int| 0 <= k < from ==> outside(#[trigger] all@[k]),
        ensures
            from <= all@.len(),
            forall|k: int| 0 <= k < from ==> outside(#[trigger] all@[k]),
            from < all@.len() ==> inside(all@[from as int]),
        decreases all@.len() - from,
    {
        from = from + 1;
    }
    let mut to: usize = all.len();
    while to > from && !all[to - 1].is_alphanumeric()
        invariant
            from <= to <= all@.len(),
            all@ == word@,
            forall|k: int| to <= k < all@.len() ==> outside(#[trigger] all@[k]),
        ensures
            from <= to <= all@.len(),
            forall|k: int| to <= k < all@.len() ==> outside(#[trigger] all@[k]),
            from < to ==> inside(all@[to - 1]),
        decreases to,
    {
        to = to - 1;
    }
    proof {
        text::lemma_trim(word@, word_edges(), from as int, to as int);
        if text::all_ascii(word@) {
            let edges = |c: char| !text::is_ascii_alnum(c);
            text::lemma_trim(word@, edges, from as int, to as int);
        }
    }
    ascii_lower(substring(&all, from, to).as_str())
}

/// The normal forms of the words of a text.
pub fn normalized_ocr_words(written: &str) -> (out: Vec<String>)
    ensures
        text::views(out@) == normal_words(written@),
{
    let all = words(written);
    let ghost parts = text::views(all@);
    let mut out: Vec<String> = Vec::new();
    let mut i: usize = 0;
    assert(parts.take(0) =~= Seq::empty());
    assert(text::views(out@) =~= Seq::empty());
    while i < all.len()
        invariant
            i <= all@.len(),
            parts == text::views(all@),
            text::views(out@) == normal_forms(parts.take(i as int)),
        decreases all@.len() - i,
    {
        proof {
            assert(parts.take(i + 1).drop_last() =~= parts.take(i as int));
            assert(parts.take(i + 1).last() == all@[i as int]@);
        }
        let word = normalize_ocr_word(all[i].as_str());
        if !word.as_str().is_empty() {
            proof {
                text::lemma_views_push(out@, word);
            }
            out.push(word);
        }
        i = i + 1;
    }
    assert(parts.take(parts.len() as int) =~= parts);
    out
}

// ---------------------------------------------------------------------------
// Errors that an app shows

/// A text in lower case, with one space between its words.
pub open spec fn flowing_text(written: Seq<char>) -> Seq<char> {
    text::lower_seq(text::join_seq(text::words_of(written), " "@))
}

/// A text in lower case, with one space between its words.
pub fn normalized_ocr_text(written: &str) -> (out: String)
    ensures
        out@ == flowing_text(written@),
{
    ascii_lower(join(&words(written), " ").as_str())
}

/// What an app shows when it failed.
pub open spec fn error_markers() -> Seq<Seq<char>> {
    seq![
        "secret portal error"@,
        "unexpected error"@,
        "fatal error"@,
        "unhandled exception"@,
        "application error"@,
        "something went wrong"@,
    ]
}

/// The first marker of an error, from number `from` on, that stands in `flowing`.
pub open spec fn first_marker(flowing: Seq<char>, from: int) -> Option<Seq<char>>
    decreases error_markers().len() - from,
{
    if from < 0 || from >= error_markers().len() {
        None
    } else if text::occurs(flowing, error_markers()[from]) {
        Some(error_markers()[from])
    } else {
        first_marker(flowing, from + 1)
    }
}

/// The first marker of an error that stands in a text.
pub fn app_error_text_marker(written: &str) -> (out: Option<&'static str>)
    ensures
        match out {
            Some(marker) => first_marker(flowing_text(written@), 0) == Some(marker@),
            None => first_marker(flowing_text(written@), 0) is None,
        },
{
    let markers: Vec<&'static str> = vec![
        "secret portal error",
        "unexpected error",
        "fatal error",
        "unhandled exception",
        "application error",
        "something went wrong",
    ];
    let flowing = normalized_ocr_text(written);
    let mut i: usize = 0;
    while i < markers.len()
        invariant
            i <= markers@.len(),
            flowing@ == flowing_text(written@),
            markers@.len() == error_markers().len(),
            forall|k: int| 0 <= k < markers@.len() ==> (#[trigger] markers@[k])@
                == error_markers()[k],
            first_marker(flowing@, 0) == first_marker(flowing@, i as int),
        decreases markers@.len() - i,
    {
        if contains(flowing.as_str(), markers[i]) {
            return Some(markers[i]);
        }
        i = i + 1;
    }
    None
}

/// A marker is found exactly when some marker stands in the text.
pub proof fn markers_are_found(flowing: Seq<char>, from: int)
    requires
        0 <= from <= error_markers().len(),
    ensures
        first_marker(flowing, from) is Some <==> exists|i: int|
            from <= i < error_markers().len() && text::occurs(flowing, #[trigger] error_markers()[i]),
    decreases error_markers().len() - from,
{
    if from < error_markers().len() {
        markers_are_found(flowing, from + 1);
    }
}

// ---------------------------------------------------------------------------
// Words on a screenshot

/// A recognised word and where it stands.
#[derive(Debug, Clone, PartialEq, Eq)]
pub struct OcrWord {
    pub text: String,
    pub block_num: i32,
    pub par_num: i32,
    pub line_num: i32,
    pub left: i32,
    pub top: i32,
    pub width: i32,
    pub height: i32,
}

/// A word, its line, and its box.
#[verifier::ext_equal]
pub struct Word {
    pub text: Seq<char>,
    pub line: (int, int, int),
    pub left: int,
    pub top: int,
    pub width: int,
    pub height: int,
}

impl View for OcrWord {
    type V = Word;

    open spec fn view(&self) -> Word {
        Word {
            text: self.text@,
            line: (self.block_num as int, self.par_num as int, self.line_num as int),
            left: self.left as int,
            top: self.top as int,
            width: self.width as int,
            height: self.height as int,
        }
    }
}

/// The words that a list holds.
pub open spec fn word_views(list: Seq<OcrWord>) -> Seq<Word> {
    Seq::new(list.len(), |i: int| list[i]@)
}

impl OcrWord {
    pub fn is_same_line(&self, other: &Self) -> (yes: bool)
        ensures
            yes == (self@.line == other@.line),
    {
        self.block_num == other.block_num && self.par_num == other.par_num && self.line_num
            == other.line_num
    }
}

/// The number in a column of a table.
pub open spec fn column_number(columns: Seq<Seq<char>>, i: int) -> Option<int> {
    number::parse_signed(columns[i], i32::MIN as int, i32::MAX as int)
}

/// The word that a line of the table describes.
pub open spec fn described_word(line: Seq<char>) -> Option<Word> {
    let columns = text::split_on(line, '\t');
    if columns.len() < 12 || normal_word(text::trimmed(columns[11])).len() == 0 {
        None
    } else {
        match (
            (column_number(columns, 2), column_number(columns, 3), column_number(columns, 4)),
            (column_number(columns, 6), column_number(columns, 7)),
            (column_number(columns, 8), column_number(columns, 9)),
        ) {
            (
                (Some(block), Some(paragraph), Some(line)),
                (Some(left), Some(top)),
                (Some(width), Some(height)),
            ) => Some(
                Word {
                    text: normal_word(text::trimmed(columns[11])),
                    line: (block, paragraph, line),
                    left,
                    top,
                    width,
                    height,
                },
            ),
            _ => None,
        }
    }
}

/// The words that the lines of the table describe.
pub open spec fn described_words(lines: Seq<Seq<char>>) -> Seq<Word>
    decreases lines.len(),
{
    if lines.len() == 0 {
        Seq::empty()
    } else {
        match described_word(lines.last()) {
            Some(word) => described_words(lines.drop_last()).push(word),
            None => described_words(lines.drop_last()),
        }
    }
}

/// The words of a table, whose first line holds the names of the columns.
pub open spec fn table_words(tsv: Seq<char>) -> Seq<Word> {
    let lines = text::lines_of(tsv);
    if lines.len() == 0 {
        Seq::empty()
    } else {
        described_words(lines.skip(1))
    }
}

fn parse_ocr_word(line: &str) -> (out: Option<OcrWord>)
    ensures
        match out {
            Some(word) => described_word(line@) == Some(word@),
            None => described_word(line@) is None,
        },
{
    let columns = split(line, '\t');
    assert(forall|i: int|
        0 <= i < columns@.len() ==> (#[trigger] columns@[i])@ == text::views(columns@)[i]);
    if columns.len() < 12 {
        return None;
    }
    let written = trim(columns[11].as_str());
    let word = normalize_ocr_word(written.as_str());
    if word.as_str().is_empty() {
        return None;
    }
    let block = parse_i32(columns[2].as_str());
    let paragraph = parse_i32(columns[3].as_str());
    let line = parse_i32(columns[4].as_str());
    let left = parse_i32(columns[6].as_str());
    let top = parse_i32(columns[7].as_str());
    let width = parse_i32(columns[8].as_str());
    let height = parse_i32(columns[9].as_str());
    match ((block, paragraph, line), (left, top), (width, height)) {
        (
            (Some(block_num), Some(par_num), Some(line_num)),
            (Some(left), Some(top)),
            (Some(width), Some(height)),
        ) => Some(OcrWord { text: word, block_num, par_num, line_num, left, top, width, height }),
        _ => None,
    }
}

/// The words of a table, whose first line holds the names of the columns.
pub fn parse_ocr_words(tsv: &str) -> (out: Vec<OcrWord>)
    ensures
        word_views(out@) == table_words(tsv@),
{
    let all = lines(tsv);
    let ghost written = text::views(all@);
    let mut out: Vec<OcrWord> = Vec::new();
    assert(word_views(out@) =~= Seq::empty());
    if all.len() == 0 {
        return out;
    }
    let ghost rest = written.skip(1);
    let mut i: usize = 1;
    assert(rest.take(0) =~= Seq::empty());
    while i < all.len()
        invariant
            1 <= i <= all@.len(),
            written == text::views(all@),
            rest == written.skip(1),
            word_views(out@) == described_words(rest.take(i - 1)),
        decreases all@.len() - i,
    {
        proof {
            assert(rest.take(i as int).drop_last() =~= rest.take(i - 1));
            assert(rest.take(i as int).last() == all@[i as int]@);
        }
        let ghost before = out@;
        match parse_ocr_word(all[i].as_str()) {
            Some(word) => {
                out.push(word);
                assert(word_views(out@) =~= word_views(before).push(word@));
            },
            None => {},
        }
        i = i + 1;
    }
    assert(rest.take(rest.len() as int) =~= rest);
    out
}

// ---------------------------------------------------------------------------
// Where a text stands

/// Whether the words from `at` on are those of `needle`, in order and on one line.
pub open spec fn stands_at(words: Seq<Word>, needle: Seq<Seq<char>>, at: int) -> bool {
    &&& 0 <= at
    &&& at + needle.len() <= words.len()
    &&& forall|k: int|
        0 <= k < needle.len() ==> (#[trigger] words[at + k]).text == needle[k] && words[at + k].line
            == words[at].line
}

/// Half of a number, rounded towards zero.
pub open spec fn half(n: int) -> int {
    if n >= 0 {
        n / 2
    } else {
        -((-n) / 2)
    }
}

pub open spec fn least(a: int, b: int) -> int {
    if b < a {
        b
    } else {
        a
    }
}

pub open spec fn greatest(a: int, b: int) -> int {
    if b > a {
        b
    } else {
        a
    }
}

/// The left, top, right and bottom edges of the box around words.
pub open spec fn outline(words: Seq<Word>) -> (int, int, int, int)
    decreases words.len(),
{
    let word = words.last();
    if words.len() <= 1 {
        (word.left, word.top, word.left + word.width, word.top + word.height)
    } else {
        let (left, top, right, bottom) = outline(words.drop_last());
        (
            least(left, word.left),
            least(top, word.top),
            greatest(right, word.left + word.width),
            greatest(bottom, word.top + word.height),
        )
    }
}

/// The middle of the box around words.
pub open spec fn center(words: Seq<Word>) -> (int, int) {
    let (left, top, right, bottom) = outline(words);
    (half(left + right), half(top + bottom))
}

pub open spec fn fits_i32(n: int) -> bool {
    i32::MIN <= n <= i32::MAX
}

/// Whether the middle of the box around words can be computed with 32-bit numbers.
pub open spec fn center_fits(words: Seq<Word>) -> bool {
    let (left, top, right, bottom) = outline(words);
    &&& forall|i: int|
        0 <= i < words.len() ==> fits_i32((#[trigger] words[i]).left + words[i].width) && fits_i32(
            words[i].top + words[i].height,
        )
    &&& fits_i32(left + right)
    &&& fits_i32(top + bottom)
}

/// The words of `needle` as they stand from `at` on.
pub open spec fn window(words: Seq<Word>, needle: Seq<Seq<char>>, at: int) -> Seq<Word> {
    words.subrange(at, at + needle.len())
}

/// The middles of the places before `end` where `needle` stands, from the first to the last.
pub open spec fn centers_before(words: Seq<Word>, needle: Seq<Seq<char>>, end: int) -> Seq<(int, int)>
    decreases end,
{
    if end <= 0 {
        Seq::empty()
    } else if stands_at(words, needle, end - 1) {
        centers_before(words, needle, end - 1).push(center(window(words, needle, end - 1)))
    } else {
        centers_before(words, needle, end - 1)
    }
}

/// The middles of all places where `needle` stands. Nothing stands nowhere.
pub open spec fn text_centers(words: Seq<Word>, needle: Seq<Seq<char>>) -> Seq<(int, int)> {
    if needle.len() == 0 {
        Seq::empty()
    } else {
        centers_before(words, needle, words.len() as int)
    }
}

/// Whether the middles of all places before `end` can be computed.
pub open spec fn centers_fit_before(words: Seq<Word>, needle: Seq<Seq<char>>, end: int) -> bool {
    forall|at: int|
        0 <= at < end && #[trigger] stands_at(words, needle, at) ==> center_fits(
            window(words, needle, at),
        )
}

/// Whether the middles of all places where a text stands can be computed.
pub open spec fn centers_fit(tsv: Seq<char>, wanted: Seq<char>) -> bool {
    normal_words(wanted).len() == 0 || centers_fit_before(
        table_words(tsv),
        normal_words(wanted),
        table_words(tsv).len() as int,
    )
}

/// Points as pairs of numbers.
pub open spec fn points(list: Seq<(i32, i32)>) -> Seq<(int, int)> {
    Seq::new(list.len(), |i: int| (list[i].0 as int, list[i].1 as int))
}

fn window_matches(words: &[OcrWord], needle: &[String], at: usize) -> (yes: bool)
    requires
        at + needle@.len() <= words@.len(),
        needle@.len() > 0,
    ensures
        yes == stands_at(word_views(words@), text::views(needle@), at as int),
{
    let ghost seen = word_views(words@);
    let ghost sought = text::views(needle@);
    let length: usize = words.len();
    let mut k: usize = 0;
    while k < needle.len()
        invariant
            k <= needle@.len(),
            length == words@.len(),
            at + needle@.len() <= words@.len(),
            needle@.len() > 0,
            seen == word_views(words@),
            sought == text::views(needle@),
            forall|j: int|
                0 <= j < k ==> (#[trigger] seen[at + j]).text == sought[j] && seen[at + j].line
                    == seen[at as int].line,
        decreases needle@.len() - k,
    {
        let word = &words[at + k];
        assert(seen[at + k] == word@);
        assert(sought[k as int] == needle@[k as int]@);
        if !text::same(word.text.as_str(), needle[k].as_str()) || !words[at].is_same_line(word) {
            return false;
        }
        k = k + 1;
    }
    true
}

/// The middle of the box around `count` words from `at` on, where it can be computed with 32-bit
/// numbers.
fn checked_center(words: &[OcrWord], at: usize, count: usize) -> (out: Option<(i32, i32)>)
    requires
        0 < count,
        at + count <= words@.len(),
    ensures
        ({
            let part = word_views(words@).subrange(at as int, at + count);
            match out {
                Some(point) => center_fits(part) && center(part) == (point.0 as int, point.1 as int),
                None => !center_fits(part),
            }
        }),
{
    let length: usize = words.len();
    let ghost part = word_views(words@).subrange(at as int, at + count);
    let first = &words[at];
    let mut left: i64 = first.left as i64;
    let mut top: i64 = first.top as i64;
    let mut right: i64 = first.left as i64 + first.width as i64;
    let mut bottom: i64 = first.top as i64 + first.height as i64;
    let mut fits: bool = in_range(right) && in_range(bottom);
    let mut k: usize = 1;
    proof {
        assert(part.take(1).last() == first@);
        assert(part[0] == first@);
    }
    while k < count
        invariant
            1 <= k <= count,
            length == words@.len(),
            at + count <= words@.len(),
            part == word_views(words@).subrange(at as int, at + count),
            outline(part.take(k as int)) == (left as int, top as int, right as int, bottom as int),
            -0x1_0000_0000 <= left <= 0x1_0000_0000,
            -0x1_0000_0000 <= top <= 0x1_0000_0000,
            -0x1_0000_0000 <= right <= 0x1_0000_0000,
            -0x1_0000_0000 <= bottom <= 0x1_0000_0000,
            fits == forall|i: int|
                0 <= i < k ==> fits_i32((#[trigger] part[i]).left + part[i].width) && fits_i32(
                    part[i].top + part[i].height,
                ),
        decreases count - k,
    {
        let word = &words[at + k];
        let word_right: i64 = word.left as i64 + word.width as i64;
        let word_bottom: i64 = word.top as i64 + word.height as i64;
        proof {
            assert(part[k as int] == word@);
            assert(part.take(k + 1).drop_last() =~= part.take(k as int));
            assert(part.take(k + 1).last() == word@);
        }
        let ghost fitted = fits;
        if (word.left as i64) < left {
            left = word.left as i64;
        }
        if (word.top as i64) < top {
            top = word.top as i64;
        }
        if word_right > right {
            right = word_right;
        }
        if word_bottom > bottom {
            bottom = word_bottom;
        }
        fits = fits && in_range(word_right) && in_range(word_bottom);
        k = k + 1;
    }
    assert(part.take(count as int) =~= part);
    if fits && in_range(left + right) && in_range(top + bottom) {
        Some((halved((left + right) as i32), halved((top + bottom) as i32)))
    } else {
        None
    }
}

fn in_range(n: i64) -> (yes: bool)
    ensures
        yes == fits_i32(n as int),
{
    -2147483648 <= n && n <= 2147483647
}

/// Half of a number, rounded towards zero.
fn halved(n: i32) -> (out: i32)
    ensures
        out == half(n as int),
{
    if n >= 0 {
        n / 2
    } else {
        (-((-(n as i64)) / 2)) as i32
    }
}

/// The middles of all places where `needle` stands, where they can be computed.
pub fn centers_of(words: &[OcrWord], needle: &[String]) -> (out: Option<Vec<(i32, i32)>>)
    requires
        needle@.len() > 0,
    ensures
        ({
            let seen = word_views(words@);
            let sought = text::views(needle@);
            match out {
                Some(found) => centers_fit_before(seen, sought, seen.len() as int) && points(found@)
                    == text_centers(seen, sought),
                None => !centers_fit_before(seen, sought, seen.len() as int),
            }
        }),
{
    let ghost seen = word_views(words@);
    let ghost sought = text::views(needle@);
    let mut found: Vec<(i32, i32)> = Vec::new();
    let mut at: usize = 0;
    assert(points(found@) =~= Seq::empty());
    while at < words.len()
        invariant
            at <= words@.len(),
            needle@.len() > 0,
            seen == word_views(words@),
            sought == text::views(needle@),
            centers_fit_before(seen, sought, at as int),
            points(found@) == centers_before(seen, sought, at as int),
        decreases words@.len() - at,
    {
        if needle.len() <= words.len() - at && window_matches(words, needle, at) {
            match checked_center(words, at, needle.len()) {
                Some(point) => {
                    let ghost before = found@;
                    found.push(point);
                    assert(points(found@) =~= points(before).push(
                        (point.0 as int, point.1 as int),
                    ));
                },
                None => {
                    assert(stands_at(seen, sought, at as int));
                    return None;
                },
            }
        }
        at = at + 1;
    }
    Some(found)
}

/// Whether the middles of all places where a text stands can be computed.
pub fn ocr_centers_fit(tsv: &str, wanted: &str) -> (yes: bool)
    ensures
        yes == centers_fit(tsv@, wanted@),
{
    let needle = normalized_ocr_words(wanted);
    if needle.len() == 0 {
        return true;
    }
    centers_of(&parse_ocr_words(tsv), &needle).is_some()
}

/// The middles of all places of a table where a text stands on one line.
pub fn find_ocr_text_matches(tsv: &str, wanted: &str) -> (out: Vec<(i32, i32)>)
    requires
        centers_fit(tsv@, wanted@),
    ensures
        points(out@) == text_centers(table_words(tsv@), normal_words(wanted@)),
{
    let needle = normalized_ocr_words(wanted);
    if needle.len() == 0 {
        let none: Vec<(i32, i32)> = Vec::new();
        assert(points(none@) =~= Seq::empty());
        return none;
    }
    match centers_of(&parse_ocr_words(tsv), &needle) {
        Some(found) => found,
        None => Vec::new(),
    }
}

/// The one place of a text; none where it has no place.
pub fn unambiguous_ocr_text_center(matches: &[(i32, i32)], wanted: &str) -> (out: Result<
    Option<(i32, i32)>,
    SessionError,
>)
    ensures
        matches@.len() == 0 ==> out == Ok::<Option<(i32, i32)>, SessionError>(None),
        matches@.len() == 1 ==> out == Ok::<Option<(i32, i32)>, SessionError>(Some(matches@[0])),
        matches@.len() > 1 ==> (out matches Err(error) && error.says(
            FailureReason::ScreenshotFailed,
            "click text '"@ + wanted@
                + "' matched multiple OCR locations and no matching primary action button was found"@,
        )),
{
    if matches.len() == 0 {
        Ok(None)
    } else if matches.len() == 1 {
        Ok(Some(matches[0]))
    } else {
        Err(
            SessionError::new(
                FailureReason::ScreenshotFailed,
                cat3(
                    "click text '",
                    wanted,
                    "' matched multiple OCR locations and no matching primary action button was found",
                ),
            ),
        )
    }
}

/// Whether the words of a label stand in recognised text, in order.
pub fn ocr_text_contains_label(ocr_text: &str, label: &str) -> (yes: bool)
    ensures
        yes == (normal_words(label@).len() > 0 && text::occurs(
            normal_words(ocr_text@),
            normal_words(label@),
        )),
{
    let hay = normalized_ocr_words(ocr_text);
    let needle = normalized_ocr_words(label);
    if needle.len() == 0 {
        return false;
    }
    words_occur(&hay, &needle)
}

/// Whether `needle` stands in `hay`, in order.
pub fn words_occur(hay: &[String], needle: &[String]) -> (yes: bool)
    ensures
        yes == text::occurs(text::views(hay@), text::views(needle@)),
{
    let ghost seen = text::views(hay@);
    let ghost sought = text::views(needle@);
    let length: usize = hay.len();
    let mut at: usize = 0;
    while at <= length && needle.len() <= length - at
        invariant
            length == hay@.len(),
            at <= hay@.len() + 1,
            seen == text::views(hay@),
            sought == text::views(needle@),
            forall|i: int| 0 <= i < at ==> !#[trigger] text::occurs_at(seen, sought, i),
        decreases hay@.len() + 1 - at,
    {
        let mut k: usize = 0;
        let mut equal: bool = true;
        while k < needle.len()
            invariant
                k <= needle@.len(),
                length == hay@.len(),
                at + needle@.len() <= length,
                seen == text::views(hay@),
                sought == text::views(needle@),
                equal == forall|j: int| 0 <= j < k ==> seen[at + j] == #[trigger] sought[j],
            decreases needle@.len() - k,
        {
            let here = text::same(hay[at + k].as_str(), needle[k].as_str());
            assert(seen[at + k] == hay@[at + k]@);
            assert(sought[k as int] == needle@[k as int]@);
            equal = equal && here;
            k = k + 1;
        }
        if equal {
            assert(seen.subrange(at as int, at + sought.len()) =~= sought);
            assert(text::occurs_at(seen, sought, at as int));
            return true;
        }
        proof {
            if text::occurs_at(seen, sought, at as int) {
                let part = seen.subrange(at as int, at + sought.len());
                assert(forall|j: int| 0 <= j < sought.len() ==> part[j] == seen[at + j]);
            }
        }
        if at == length {
            return false;
        }
        at = at + 1;
    }
    false
}

// ---------------------------------------------------------------------------
// Buttons

/// A connected component of a picture: its box and the number of its pixels.
#[derive(Debug, Clone, Copy, PartialEq, Eq, Structural)]
pub struct ComponentBox {
    pub x: i32,
    pub y: i32,
    pub width: i32,
    pub height: i32,
    pub area: i32,
}

/// Whether a box has the size and the shape of a button.
pub open spec fn button_sized(found: ComponentBox) -> bool {
    &&& 80 <= found.width <= 640
    &&& 24 <= found.height <= 96
    &&& found.width >= found.height * 2
}

/// Whether a component has the size and the shape of a button and fills at least 45 percent of
/// its box.
pub open spec fn button_like(found: ComponentBox) -> bool {
    button_sized(found) && found.area * 100 >= found.width * found.height * 45
}

/// Whether 32-bit numbers suffice to tell whether a component is like a button.
pub open spec fn area_fits(found: ComponentBox) -> bool {
    button_sized(found) ==> fits_i32(found.area * 100)
}

impl ComponentBox {
    /// The middle can be computed with 32-bit numbers.
    pub open spec fn center_fits(&self) -> bool {
        &&& fits_i32(self.x + half(self.width as int))
        &&& fits_i32(self.y + half(self.height as int))
    }

    /// Whether the middle can be computed with 32-bit numbers.
    pub fn has_center(&self) -> (yes: bool)
        ensures
            yes == self.center_fits(),
    {
        in_range(self.x as i64 + halved(self.width) as i64) && in_range(
            self.y as i64 + halved(self.height) as i64,
        )
    }

    pub fn center(self) -> (out: (i32, i32))
        requires
            self.center_fits(),
        ensures
            out.0 == self.x + half(self.width as int),
            out.1 == self.y + half(self.height as int),
    {
        (self.x + halved(self.width), self.y + halved(self.height))
    }

    /// The box as ImageMagick writes it.
    pub fn crop_geometry(&self) -> (out: String)
        ensures
            out@ == number::decimal_int(self.width as int) + "x"@ + number::decimal_int(
                self.height as int,
            ) + "+"@ + number::decimal_int(self.x as int) + "+"@ + number::decimal_int(
                self.y as int,
            ),
    {
        let size = cat3(
            decimal_signed(self.width as i64).as_str(),
            "x",
            decimal_signed(self.height as i64).as_str(),
        );
        let place = cat4(
            "+",
            decimal_signed(self.x as i64).as_str(),
            "+",
            decimal_signed(self.y as i64).as_str(),
        );
        let out = cat2(size.as_str(), place.as_str());
        assert(out@ =~= number::decimal_int(self.width as int) + "x"@ + number::decimal_int(
            self.height as int,
        ) + "+"@ + number::decimal_int(self.x as int) + "+"@ + number::decimal_int(self.y as int));
        out
    }

    pub fn is_primary_action_button_like(&self) -> (yes: bool)
        requires
            area_fits(*self),
        ensures
            yes == button_like(*self),
    {
        if self.width < 80 || self.width > 640 || self.height < 24 || self.height > 96 {
            return false;
        }
        if self.width < self.height * 2 {
            return false;
        }
        assert(0 <= self.width * self.height <= 640 * 96) by (nonlinear_arith)
            requires
                80 <= self.width <= 640,
                24 <= self.height <= 96,
        ;
        self.area * 100 >= self.width * self.height * 45
    }
}

pub open spec fn number_of(written: Seq<char>) -> Option<int> {
    number::parse_signed(written, i32::MIN as int, i32::MAX as int)
}

/// The box that is written as its size and its place, with no area.
pub open spec fn written_box(written: Seq<char>) -> Option<ComponentBox> {
    match text::cut_once(written, 'x') {
        None => None,
        Some((width, rest)) => match text::cut_once(rest, '+') {
            None => None,
            Some((height, place)) => match text::cut_once(place, '+') {
                None => None,
                Some((x, y)) => match (
                    number_of(x),
                    number_of(y),
                    number_of(width),
                    number_of(height),
                ) {
                    (Some(x), Some(y), Some(width), Some(height)) => Some(
                        ComponentBox {
                            x: x as i32,
                            y: y as i32,
                            width: width as i32,
                            height: height as i32,
                            area: 0,
                        },
                    ),
                    _ => None,
                },
            },
        },
    }
}

/// The component that a line of a report describes.
pub open spec fn reported_component(line: Seq<char>) -> Option<ComponentBox> {
    let parts = text::words_of(line);
    if parts.len() < 4 || !text::ends(parts[0], ":"@) || number::parse_unsigned(
        parts[0].take(parts[0].len() - 1),
        usize::MAX as nat,
    ) is None {
        None
    } else {
        match (written_box(parts[1]), number_of(parts[3])) {
            (Some(found), Some(area)) => Some(ComponentBox { area: area as i32, ..found }),
            _ => None,
        }
    }
}

/// The components like buttons among those that lines describe.
pub open spec fn reported_buttons(lines: Seq<Seq<char>>) -> Seq<ComponentBox>
    decreases lines.len(),
{
    if lines.len() == 0 {
        Seq::empty()
    } else {
        match reported_component(lines.last()) {
            Some(found) if button_like(found) => reported_buttons(lines.drop_last()).push(found),
            _ => reported_buttons(lines.drop_last()),
        }
    }
}

/// Whether 32-bit numbers suffice for all components that lines describe.
pub open spec fn areas_fit(lines: Seq<Seq<char>>) -> bool {
    forall|i: int|
        0 <= i < lines.len() ==> ((#[trigger] reported_component(lines[i])) matches Some(found)
            ==> area_fits(found))
}

/// The box that is written as its size and its place, with no area.
pub fn parse_component_bbox(value: &str) -> (out: Option<ComponentBox>)
    ensures
        out == written_box(value@),
{
    let (width, rest) = match split_once(value, 'x') {
        Some(parts) => parts,
        None => return None,
    };
    let (height, place) = match split_once(rest.as_str(), '+') {
        Some(parts) => parts,
        None => return None,
    };
    let (x, y) = match split_once(place.as_str(), '+') {
        Some(parts) => parts,
        None => return None,
    };
    match (
        parse_i32(x.as_str()),
        parse_i32(y.as_str()),
        parse_i32(width.as_str()),
        parse_i32(height.as_str()),
    ) {
        (Some(x), Some(y), Some(width), Some(height)) => Some(
            ComponentBox { x, y, width, height, area: 0 },
        ),
        _ => None,
    }
}

/// The component that a line of a report describes.
pub fn parse_connected_component(line: &str) -> (out: Option<ComponentBox>)
    ensures
        out == reported_component(line@),
{
    let parts = words(line);
    assert(forall|i: int|
        0 <= i < parts@.len() ==> (#[trigger] parts@[i])@ == text::views(parts@)[i]);
    proof {
        reveal_strlit(":");
    }
    if parts.len() < 4 {
        return None;
    }
    match strip_suffix(parts[0].as_str(), ":") {
        Some(id) => match parse_usize(id.as_str()) {
            Some(_) => {},
            None => return None,
        },
        None => return None,
    }
    match (parse_component_bbox(parts[1].as_str()), parse_i32(parts[3].as_str())) {
        (Some(found), Some(area)) => Some(
            ComponentBox {
                x: found.x,
                y: found.y,
                width: found.width,
                height: found.height,
                area,
            },
        ),
        _ => None,
    }
}

/// Whether 32-bit numbers suffice for all components of a report.
pub fn component_areas_fit(components: &str) -> (yes: bool)
    ensures
        yes == areas_fit(text::lines_of(components@)),
{
    let all = lines(components);
    let ghost written = text::views(all@);
    let mut i: usize = 0;
    while i < all.len()
        invariant
            i <= all@.len(),
            written == text::views(all@),
            written == text::lines_of(components@),
            forall|k: int|
                0 <= k < i ==> ((#[trigger] reported_component(written[k])) matches Some(found)
                    ==> area_fits(found)),
        decreases all@.len() - i,
    {
        assert(written[i as int] == all@[i as int]@);
        match parse_connected_component(all[i].as_str()) {
            Some(found) => {
                let sized = 80 <= found.width && found.width <= 640 && 24 <= found.height
                    && found.height <= 96 && found.width >= found.height * 2;
                if sized && !in_range(found.area as i64 * 100) {
                    assert(reported_component(written[i as int]) == Some(found));
                    return false;
                }
            },
            None => {},
        }
        i = i + 1;
    }
    true
}

/// The one component of a report that is like a button; none where there are none or several.
pub fn find_primary_action_button(components: &str) -> (out: Option<ComponentBox>)
    requires
        areas_fit(text::lines_of(components@)),
    ensures
        ({
            let found = reported_buttons(text::lines_of(components@));
            out == if found.len() == 1 {
                Some(found[0])
            } else {
                None
            }
        }),
{
    let all = lines(components);
    let ghost written = text::views(all@);
    let mut candidates: Vec<ComponentBox> = Vec::new();
    let mut i: usize = 0;
    assert(written.take(0) =~= Seq::empty());
    while i < all.len()
        invariant
            i <= all@.len(),
            written == text::views(all@),
            areas_fit(written),
            candidates@ == reported_buttons(written.take(i as int)),
        decreases all@.len() - i,
    {
        proof {
            assert(written.take(i + 1).drop_last() =~= written.take(i as int));
            assert(written.take(i + 1).last() == all@[i as int]@);
            assert(reported_component(written[i as int]) == reported_component(all@[i as int]@));
        }
        match parse_connected_component(all[i].as_str()) {
            Some(found) => {
                if found.is_primary_action_button_like() {
                    candidates.push(found);
                }
            },
            None => {},
        }
        i = i + 1;
    }
    assert(written.take(written.len() as int) =~= written);
    if candidates.len() == 1 {
        Some(candidates[0])
    } else {
        None
    }
}

} // verus!
