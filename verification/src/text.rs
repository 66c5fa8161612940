//! Text as sequences of characters: building, splitting, trimming and searching.
use vstd::prelude::*;

verus! {

/// `String::push` appends one character to the end of the string.
pub assume_specification[ String::push ](string: &mut String, c: char)
    ensures
        final(string)@ == old(string)@.push(c),
;

/// What `String::from_utf8_lossy` makes of `bytes`.
pub uninterp spec fn utf8_lossy(bytes: Seq<u8>) -> Seq<char>;

/// `String::from_utf8_lossy`: valid UTF-8 is read as it is. What stands for invalid bytes depends
/// on the bytes alone.
#[verifier::external_body]
pub(crate) fn lossy(bytes: &[u8]) -> (out: String)
    ensures
        out@ == utf8_lossy(bytes@),
        vstd::utf8::valid_utf8(bytes@) ==> out@ == vstd::utf8::decode_utf8(bytes@),
{
    String::from_utf8_lossy(bytes).into_owned()
}

/// What `String::from_utf8` says of bytes that are not UTF-8.
pub uninterp spec fn utf8_complaint(bytes: Seq<u8>) -> Seq<char>;

/// `String::from_utf8`: reads valid UTF-8 as it is, and refuses anything else with a message that
/// depends on the bytes alone.
#[verifier::external_body]
pub(crate) fn utf8(bytes: &[u8]) -> (out: Result<String, String>)
    ensures
        match out {
            Ok(text) => vstd::utf8::valid_utf8(bytes@) && text@ == vstd::utf8::decode_utf8(bytes@),
            Err(message) => !vstd::utf8::valid_utf8(bytes@) && message@ == utf8_complaint(bytes@),
        },
{
    String::from_utf8(bytes.to_vec()).map_err(|error| error.to_string())
}

/// The contents of each string of a list.
pub open spec fn views(list: Seq<String>) -> Seq<Seq<char>> {
    Seq::new(list.len(), |i: int| list[i]@)
}

/// The contents of an optional string.
pub open spec fn option_view(text: Option<String>) -> Option<Seq<char>> {
    match text {
        Some(text) => Some(text@),
        None => None,
    }
}

/// The characters of `text`, in order.
pub fn chars(text: &str) -> (out: Vec<char>)
    ensures
        out@ == text@,
{
    let mut out: Vec<char> = Vec::new();
    for c in it: text.chars()
        invariant
            it.seq() == text@,
            out@ == it.seq().take(it.index()),
    {
        out.push(c);
    }
    out
}

/// The string made of the characters from `from` up to `to`.
pub fn substring(chars: &[char], from: usize, to: usize) -> (out: String)
    requires
        from <= to <= chars@.len(),
    ensures
        out@ == chars@.subrange(from as int, to as int),
{
    let mut out = String::new();
    let mut i: usize = from;
    while i < to
        invariant
            from <= i <= to <= chars@.len(),
            out@ == chars@.subrange(from as int, i as int),
        decreases to - i,
    {
        out.push(chars[i]);
        i = i + 1;
    }
    out
}

/// The string made of `chars`.
pub fn from_chars(chars: &[char]) -> (out: String)
    ensures
        out@ == chars@,
{
    let out = substring(chars, 0, chars.len());
    assert(chars@.subrange(0, chars@.len() as int) =~= chars@);
    out
}

/// A copy of `text`.
pub fn owned(text: &str) -> (out: String)
    ensures
        out@ == text@,
{
    let mut out = String::new();
    out.append(text);
    assert(Seq::<char>::empty() + text@ =~= text@);
    out
}

/// Whether two sequences of characters are equal.
pub fn same_chars(a: &[char], b: &[char]) -> (equal: bool)
    ensures
        equal == (a@ == b@),
{
    if a.len() != b.len() {
        return false;
    }
    let mut i: usize = 0;
    while i < a.len()
        invariant
            i <= a@.len(),
            a@.len() == b@.len(),
            forall|k: int| 0 <= k < i ==> a@[k] == b@[k],
        decreases a@.len() - i,
    {
        if a[i] != b[i] {
            return false;
        }
        i = i + 1;
    }
    assert(a@ =~= b@);
    true
}

/// Whether two texts are equal.
pub fn same(a: &str, b: &str) -> (equal: bool)
    ensures
        equal == (a@ == b@),
{
    let a = chars(a);
    let b = chars(b);
    same_chars(&a, &b)
}

/// `a` followed by `b`.
pub fn cat2(a: &str, b: &str) -> (out: String)
    ensures
        out@ == a@ + b@,
{
    owned(a).concat(b)
}

/// Three texts one after another.
pub fn cat3(a: &str, b: &str, c: &str) -> (out: String)
    ensures
        out@ == a@ + b@ + c@,
{
    owned(a).concat(b).concat(c)
}

/// Four texts one after another.
pub fn cat4(a: &str, b: &str, c: &str, d: &str) -> (out: String)
    ensures
        out@ == a@ + b@ + c@ + d@,
{
    owned(a).concat(b).concat(c).concat(d)
}

/// Five texts one after another.
pub fn cat5(a: &str, b: &str, c: &str, d: &str, e: &str) -> (out: String)
    ensures
        out@ == a@ + b@ + c@ + d@ + e@,
{
    owned(a).concat(b).concat(c).concat(d).concat(e)
}

/// Adds `item` to the end of a list of texts.
pub proof fn lemma_views_push(list: Seq<String>, item: String)
    ensures
        views(list.push(item)) == views(list).push(item@),
{
    assert(views(list.push(item)) =~= views(list).push(item@));
}

/// The contents of each string of a list of borrowed strings.
pub open spec fn str_views(list: Seq<&str>) -> Seq<Seq<char>> {
    Seq::new(list.len(), |i: int| list[i]@)
}

/// Owned copies of strings, in order.
pub fn strings(list: Vec<&str>) -> (out: Vec<String>)
    ensures
        views(out@) == str_views(list@),
{
    let mut out: Vec<String> = Vec::new();
    let mut i: usize = 0;
    while i < list.len()
        invariant
            i <= list@.len(),
            out@.len() == i,
            forall|k: int| 0 <= k < i ==> (#[trigger] out@[k])@ == list@[k]@,
        decreases list@.len() - i,
    {
        out.push(owned(list[i]));
        i = i + 1;
    }
    assert(views(out@) =~= str_views(list@));
    out
}

/// Whether `list` has an item that reads `wanted`.
pub fn list_contains(list: &[String], wanted: &str) -> (found: bool)
    ensures
        found == views(list@).contains(wanted@),
{
    let mut i: usize = 0;
    while i < list.len()
        invariant
            i <= list@.len(),
            forall|k: int| 0 <= k < i ==> views(list@)[k] != wanted@,
        decreases list@.len() - i,
    {
        if same(list[i].as_str(), wanted) {
            assert(views(list@)[i as int] == wanted@);
            return true;
        }
        i = i + 1;
    }
    false
}

// ---------------------------------------------------------------------------
// Joining and splitting

/// The items of `parts` with `separator` between each two neighbours.
pub open spec fn join_seq<T>(parts: Seq<Seq<T>>, separator: Seq<T>) -> Seq<T>
    decreases parts.len(),
{
    if parts.len() == 0 {
        Seq::empty()
    } else if parts.len() == 1 {
        parts[0]
    } else {
        join_seq(parts.drop_last(), separator) + separator + parts.last()
    }
}

/// The texts of `parts` with `separator` between each two neighbours.
pub fn join(parts: &[String], separator: &str) -> (out: String)
    ensures
        out@ == join_seq(views(parts@), separator@),
{
    let mut out = String::new();
    let mut i: usize = 0;
    while i < parts.len()
        invariant
            i <= parts@.len(),
            out@ == join_seq(views(parts@).take(i as int), separator@),
        decreases parts@.len() - i,
    {
        if i > 0 {
            out.append(separator);
        }
        out.append(parts[i].as_str());
        proof {
            let all = views(parts@);
            assert(all.take(i + 1).drop_last() =~= all.take(i as int));
            assert(all.take(i + 1).last() == parts@[i as int]@);
            if i == 0 {
                assert(all.take(0) =~= Seq::empty());
                assert(Seq::<char>::empty() + parts@[0]@ =~= parts@[0]@);
            }
        }
        i = i + 1;
    }
    assert(views(parts@).take(parts@.len() as int) =~= views(parts@));
    out
}

/// The pieces of `s` between the occurrences of `separator`; one piece more than there are
/// occurrences.
pub open spec fn split_on<T>(s: Seq<T>, separator: T) -> Seq<Seq<T>>
    decreases s.len(),
{
    if s.len() == 0 {
        seq![Seq::empty()]
    } else {
        let before = split_on(s.drop_last(), separator);
        if s.last() == separator {
            before.push(Seq::empty())
        } else {
            before.drop_last().push(before.last().push(s.last()))
        }
    }
}

/// There is always at least one piece, and no piece contains the separator.
pub proof fn lemma_split_pieces<T>(s: Seq<T>, separator: T)
    ensures
        split_on(s, separator).len() >= 1,
        forall|i: int|
            0 <= i < split_on(s, separator).len() ==> !(#[trigger] split_on(
                s,
                separator,
            )[i]).contains(separator),
    decreases s.len(),
{
    if s.len() > 0 {
        lemma_split_pieces(s.drop_last(), separator);
        let before = split_on(s.drop_last(), separator);
        assert forall|i: int| 0 <= i < split_on(s, separator).len() implies !(
        #[trigger] split_on(s, separator)[i]).contains(separator) by {
            if s.last() != separator && i == before.len() - 1 {
                assert(!before.last().contains(separator));
                let piece = before.last().push(s.last());
                if piece.contains(separator) {
                    let k = choose|k: int| 0 <= k < piece.len() && piece[k] == separator;
                    assert(before.last()[k] == separator);
                }
            } else if i < before.len() {
                assert(!before[i].contains(separator));
            }
        }
    }
}

/// A text without the separator is one piece.
pub proof fn lemma_split_single<T>(s: Seq<T>, separator: T)
    requires
        !s.contains(separator),
    ensures
        split_on(s, separator) == seq![s],
    decreases s.len(),
{
    if s.len() > 0 {
        let shorter = s.drop_last();
        assert forall|i: int| 0 <= i < shorter.len() implies shorter[i] != separator by {
            assert(s[i] == shorter[i]);
        }
        assert(s[s.len() - 1] == s.last());
        lemma_split_single(shorter, separator);
        assert(shorter.push(s.last()) =~= s);
        assert(split_on(s, separator) =~= seq![s]);
    } else {
        assert(s =~= Seq::empty());
    }
}

/// A separator and a text without it add that text to the pieces.
pub proof fn lemma_split_more<T>(s: Seq<T>, separator: T, more: Seq<T>)
    requires
        !more.contains(separator),
    ensures
        split_on(s + seq![separator] + more, separator) == split_on(s, separator).push(more),
    decreases more.len(),
{
    let all = s + seq![separator] + more;
    if more.len() == 0 {
        assert(all.drop_last() =~= s);
        assert(more =~= Seq::empty());
    } else {
        let less = more.drop_last();
        assert forall|i: int| 0 <= i < less.len() implies less[i] != separator by {
            assert(more[i] == less[i]);
        }
        assert(more[more.len() - 1] == more.last());
        lemma_split_more(s, separator, less);
        assert(all.drop_last() =~= s + seq![separator] + less);
        assert(less.push(more.last()) =~= more);
        assert(split_on(all, separator) =~= split_on(s, separator).push(more));
    }
}

/// Splitting pieces that were joined with the separator gives the pieces back.
pub proof fn lemma_join_split<T>(parts: Seq<Seq<T>>, separator: T)
    requires
        parts.len() > 0,
        forall|i: int| 0 <= i < parts.len() ==> !(#[trigger] parts[i]).contains(separator),
    ensures
        split_on(join_seq(parts, seq![separator]), separator) == parts,
    decreases parts.len(),
{
    if parts.len() == 1 {
        lemma_split_single(parts[0], separator);
        assert(parts =~= seq![parts[0]]);
    } else {
        let shorter = parts.drop_last();
        assert forall|i: int| 0 <= i < shorter.len() implies !(#[trigger] shorter[i]).contains(
            separator,
        ) by {
            assert(shorter[i] == parts[i]);
        }
        lemma_join_split(shorter, separator);
        assert(!parts[parts.len() - 1].contains(separator));
        lemma_split_more(join_seq(shorter, seq![separator]), separator, parts.last());
        assert(shorter.push(parts.last()) =~= parts);
    }
}

/// Joining the pieces of a text with the separator gives the text back.
pub proof fn lemma_split_join<T>(s: Seq<T>, separator: T)
    ensures
        join_seq(split_on(s, separator), seq![separator]) == s,
    decreases s.len(),
{
    if s.len() > 0 {
        lemma_split_join(s.drop_last(), separator);
        lemma_split_pieces(s.drop_last(), separator);
        let before = split_on(s.drop_last(), separator);
        let all = split_on(s, separator);
        if s.last() == separator {
            assert(all.drop_last() =~= before);
            assert(join_seq(all, seq![separator]) =~= s);
        } else {
            assert(all.drop_last() =~= before.drop_last());
            assert(all.last() == before.last().push(s.last()));
            if before.len() == 1 {
                assert(all[0] =~= before[0].push(s.last()));
                assert(join_seq(before, seq![separator]) == before[0]);
            } else {
                assert(join_seq(before, seq![separator]) == join_seq(
                    before.drop_last(),
                    seq![separator],
                ) + seq![separator] + before.last());
            }
            assert(join_seq(all, seq![separator]) =~= s.drop_last().push(s.last()));
            assert(s.drop_last().push(s.last()) =~= s);
        }
    }
}

/// The pieces of `text` between the occurrences of `separator`.
pub fn split(text: &str, separator: char) -> (pieces: Vec<String>)
    ensures
        views(pieces@) == split_on(text@, separator),
        pieces@.len() >= 1,
{
    let all = chars(text);
    let mut pieces: Vec<String> = Vec::new();
    let mut current = String::new();
    let mut i: usize = 0;
    assert(text@.take(0) =~= Seq::empty());
    assert(views(pieces@).push(current@) =~= split_on(text@.take(0), separator));
    while i < all.len()
        invariant
            i <= all@.len(),
            all@ == text@,
            views(pieces@).push(current@) == split_on(text@.take(i as int), separator),
        decreases all@.len() - i,
    {
        let c = all[i];
        proof {
            assert(text@.take(i + 1).drop_last() =~= text@.take(i as int));
            assert(text@.take(i + 1).last() == c);
            assert(views(pieces@).push(current@).drop_last() =~= views(pieces@));
        }
        if c == separator {
            proof {
                lemma_views_push(pieces@, current);
            }
            pieces.push(current);
            current = String::new();
        } else {
            current.push(c);
        }
        i = i + 1;
    }
    proof {
        lemma_views_push(pieces@, current);
        assert(text@.take(text@.len() as int) =~= text@);
    }
    pieces.push(current);
    pieces
}

/// The pieces of a byte string between the occurrences of `separator`.
pub fn split_bytes(bytes: &[u8], separator: u8) -> (pieces: Vec<Vec<u8>>)
    ensures
        byte_views(pieces@) == split_on(bytes@, separator),
{
    let mut pieces: Vec<Vec<u8>> = Vec::new();
    let mut current: Vec<u8> = Vec::new();
    let mut i: usize = 0;
    assert(bytes@.take(0) =~= Seq::empty());
    assert(byte_views(pieces@).push(current@) =~= split_on(bytes@.take(0), separator));
    while i < bytes.len()
        invariant
            i <= bytes@.len(),
            byte_views(pieces@).push(current@) == split_on(bytes@.take(i as int), separator),
        decreases bytes@.len() - i,
    {
        let b = bytes[i];
        proof {
            assert(bytes@.take(i + 1).drop_last() =~= bytes@.take(i as int));
            assert(bytes@.take(i + 1).last() == b);
            assert(byte_views(pieces@).push(current@).drop_last() =~= byte_views(pieces@));
        }
        if b == separator {
            proof {
                assert(byte_views(pieces@.push(current)) =~= byte_views(pieces@).push(current@));
            }
            pieces.push(current);
            current = Vec::new();
        } else {
            current.push(b);
        }
        i = i + 1;
    }
    proof {
        assert(byte_views(pieces@.push(current)) =~= byte_views(pieces@).push(current@));
        assert(bytes@.take(bytes@.len() as int) =~= bytes@);
    }
    pieces.push(current);
    pieces
}

/// The contents of each byte string of a list.
pub open spec fn byte_views(list: Seq<Vec<u8>>) -> Seq<Seq<u8>> {
    Seq::new(list.len(), |i: int| list[i]@)
}

/// Whether two byte strings are equal.
pub fn same_bytes(a: &[u8], b: &[u8]) -> (equal: bool)
    ensures
        equal == (a@ == b@),
{
    if a.len() != b.len() {
        return false;
    }
    let mut i: usize = 0;
    while i < a.len()
        invariant
            i <= a@.len(),
            a@.len() == b@.len(),
            forall|k: int| 0 <= k < i ==> a@[k] == b@[k],
        decreases a@.len() - i,
    {
        if a[i] != b[i] {
            return false;
        }
        i = i + 1;
    }
    assert(a@ =~= b@);
    true
}

/// `line` without a carriage return at its end.
pub open spec fn strip_carriage_return(line: Seq<char>) -> Seq<char> {
    if line.len() > 0 && line.last() == '\r' {
        line.drop_last()
    } else {
        line
    }
}

/// The lines of `s`: each ends with a line feed or a carriage return and line feed, which are
/// not part of it; the last one may end with the text.
pub open spec fn lines_of(s: Seq<char>) -> Seq<Seq<char>> {
    let pieces = split_on(s, '\n');
    let ended = Seq::new(
        (pieces.len() - 1) as nat,
        |i: int| strip_carriage_return(pieces[i]),
    );
    if pieces.last().len() == 0 {
        ended
    } else {
        ended.push(pieces.last())
    }
}

/// The lines of `text`.
pub fn lines(text: &str) -> (out: Vec<String>)
    ensures
        views(out@) == lines_of(text@),
{
    let pieces = split(text, '\n');
    let ghost parts = split_on(text@, '\n');
    let ghost ended = Seq::new(
        (parts.len() - 1) as nat,
        |i: int| strip_carriage_return(parts[i]),
    );
    let mut out: Vec<String> = Vec::new();
    let mut i: usize = 0;
    while i < pieces.len() - 1
        invariant
            i < pieces@.len(),
            views(pieces@) == parts,
            ended == Seq::new(
                (parts.len() - 1) as nat,
                |i: int| strip_carriage_return(parts[i]),
            ),
            views(out@) == ended.take(i as int),
        decreases pieces@.len() - i,
    {
        assert(parts[i as int] == pieces@[i as int]@);
        let line = chars(pieces[i].as_str());
        let kept: usize = if line.len() > 0 && line[line.len() - 1] == '\r' {
            line.len() - 1
        } else {
            line.len()
        };
        let item = substring(&line, 0, kept);
        proof {
            assert(item@ =~= strip_carriage_return(parts[i as int]));
            lemma_views_push(out@, item);
            assert(ended.take(i + 1) =~= ended.take(i as int).push(item@));
        }
        out.push(item);
        i = i + 1;
    }
    assert(ended.take(ended.len() as int) =~= ended);
    assert(parts.last() == pieces@[i as int]@);
    let last = owned(pieces[i].as_str());
    if !last.as_str().is_empty() {
        proof {
            lemma_views_push(out@, last);
        }
        out.push(last);
    }
    out
}

// ---------------------------------------------------------------------------
// White space, letters and digits

/// Whether `c` has the Unicode property White_Space.
pub open spec fn is_white(c: char) -> bool {
    ||| '\u{9}' <= c <= '\u{d}'
    ||| c == ' '
    ||| c == '\u{85}'
    ||| c == '\u{a0}'
    ||| c == '\u{1680}'
    ||| '\u{2000}' <= c <= '\u{200a}'
    ||| c == '\u{2028}'
    ||| c == '\u{2029}'
    ||| c == '\u{202f}'
    ||| c == '\u{205f}'
    ||| c == '\u{3000}'
}

/// Whether `c` is white space.
pub fn white(c: char) -> (yes: bool)
    ensures
        yes == is_white(c),
{
    ('\u{9}' <= c && c <= '\u{d}') || c == ' ' || c == '\u{85}' || c == '\u{a0}' || c == '\u{1680}'
        || ('\u{2000}' <= c && c <= '\u{200a}') || c == '\u{2028}' || c == '\u{2029}' || c
        == '\u{202f}' || c == '\u{205f}' || c == '\u{3000}'
}

pub open spec fn is_digit(c: char) -> bool {
    '0' <= c <= '9'
}

pub open spec fn is_ascii_upper(c: char) -> bool {
    'A' <= c <= 'Z'
}

pub open spec fn is_ascii_lower(c: char) -> bool {
    'a' <= c <= 'z'
}

pub open spec fn is_ascii_alnum(c: char) -> bool {
    is_digit(c) || is_ascii_upper(c) || is_ascii_lower(c)
}

/// Whether `c` is an ASCII character.
pub open spec fn is_ascii(c: char) -> bool {
    c <= '\u{7f}'
}

/// Whether `s` holds ASCII characters alone.
pub open spec fn all_ascii(s: Seq<char>) -> bool {
    forall|i: int| 0 <= i < s.len() ==> is_ascii(#[trigger] s[i])
}

/// Whether `c` is a printable ASCII character other than the space.
pub open spec fn is_ascii_graphic(c: char) -> bool {
    '!' <= c <= '~'
}

/// Whether `c` is an ASCII letter or digit.
pub fn ascii_alnum(c: char) -> (yes: bool)
    ensures
        yes == is_ascii_alnum(c),
{
    ('0' <= c && c <= '9') || ('A' <= c && c <= 'Z') || ('a' <= c && c <= 'z')
}

/// `c` in lower case where it is an ASCII letter, else `c`.
pub open spec fn lower_char(c: char) -> char {
    if is_ascii_upper(c) {
        ((c as u8) + 32) as char
    } else {
        c
    }
}

/// `s` with its ASCII letters in lower case.
pub open spec fn lower_seq(s: Seq<char>) -> Seq<char> {
    Seq::new(s.len(), |i: int| lower_char(s[i]))
}

/// `c` in lower case where it is an ASCII letter.
pub fn ascii_lower_char(c: char) -> (out: char)
    ensures
        out == lower_char(c),
{
    if 'A' <= c && c <= 'Z' {
        (c as u8 + 32) as char
    } else {
        c
    }
}

/// `text` with its ASCII letters in lower case.
pub fn ascii_lower(text: &str) -> (out: String)
    ensures
        out@ == lower_seq(text@),
{
    let all = chars(text);
    let mut out = String::new();
    let mut i: usize = 0;
    while i < all.len()
        invariant
            i <= all@.len(),
            all@ == text@,
            out@ == lower_seq(text@).take(i as int),
        decreases all@.len() - i,
    {
        out.push(ascii_lower_char(all[i]));
        assert(lower_seq(text@).take(i + 1) =~= lower_seq(text@).take(i as int).push(
            lower_char(text@[i as int]),
        ));
        i = i + 1;
    }
    assert(lower_seq(text@).take(text@.len() as int) =~= lower_seq(text@));
    out
}

// ---------------------------------------------------------------------------
// Trimming

/// `s` without the characters at its start that `drop` holds of.
pub open spec fn trim_start_by(s: Seq<char>, drop: spec_fn(char) -> bool) -> Seq<char>
    decreases s.len(),
{
    if s.len() > 0 && drop(s[0]) {
        trim_start_by(s.drop_first(), drop)
    } else {
        s
    }
}

/// `s` without the characters at its end that `drop` holds of.
pub open spec fn trim_end_by(s: Seq<char>, drop: spec_fn(char) -> bool) -> Seq<char>
    decreases s.len(),
{
    if s.len() > 0 && drop(s.last()) {
        trim_end_by(s.drop_last(), drop)
    } else {
        s
    }
}

/// `s` without the characters at both its ends that `drop` holds of.
pub open spec fn trim_by(s: Seq<char>, drop: spec_fn(char) -> bool) -> Seq<char> {
    trim_end_by(trim_start_by(s, drop), drop)
}

/// Holds of white space.
pub open spec fn white_chars() -> spec_fn(char) -> bool {
    |c: char| is_white(c)
}

/// `s` without the white space at both its ends.
pub open spec fn trimmed(s: Seq<char>) -> Seq<char> {
    trim_by(s, white_chars())
}

/// `s` without the white space at its end.
pub open spec fn trimmed_end(s: Seq<char>) -> Seq<char> {
    trim_end_by(s, white_chars())
}

pub proof fn lemma_trim_start(s: Seq<char>, drop: spec_fn(char) -> bool, i: int)
    requires
        0 <= i <= s.len(),
        forall|k: int| 0 <= k < i ==> drop(#[trigger] s[k]),
        i < s.len() ==> !drop(s[i]),
    ensures
        trim_start_by(s, drop) == s.skip(i),
    decreases s.len(),
{
    if i == 0 {
        assert(s.skip(0) =~= s);
    } else {
        let rest = s.drop_first();
        assert forall|k: int| 0 <= k < i - 1 implies drop(#[trigger] rest[k]) by {
            assert(rest[k] == s[k + 1]);
        }
        if i < s.len() {
            assert(rest[i - 1] == s[i]);
        }
        lemma_trim_start(rest, drop, i - 1);
        assert(drop(s[0]));
        assert(rest.skip(i - 1) =~= s.skip(i));
    }
}

pub proof fn lemma_trim_end(s: Seq<char>, drop: spec_fn(char) -> bool, j: int)
    requires
        0 <= j <= s.len(),
        forall|k: int| j <= k < s.len() ==> drop(#[trigger] s[k]),
        0 < j ==> !drop(s[j - 1]),
    ensures
        trim_end_by(s, drop) == s.take(j),
    decreases s.len(),
{
    if j == s.len() {
        assert(s.take(j) =~= s);
    } else {
        lemma_trim_end(s.drop_last(), drop, j);
        assert(drop(s.last()));
        assert(s.drop_last().take(j) =~= s.take(j));
    }
}

/// The part of `s` from `i` to `j` is what trimming leaves.
pub proof fn lemma_trim(s: Seq<char>, drop: spec_fn(char) -> bool, i: int, j: int)
    requires
        0 <= i <= j <= s.len(),
        forall|k: int| 0 <= k < i ==> drop(#[trigger] s[k]),
        forall|k: int| j <= k < s.len() ==> drop(#[trigger] s[k]),
        i < s.len() ==> !drop(s[i]),
        i < j ==> !drop(s[j - 1]),
    ensures
        trim_by(s, drop) == s.subrange(i, j),
{
    lemma_trim_start(s, drop, i);
    let rest = s.skip(i);
    assert forall|k: int| j - i <= k < rest.len() implies drop(#[trigger] rest[k]) by {
        assert(rest[k] == s[k + i]);
    }
    if i < j {
        assert(rest[j - i - 1] == s[j - 1]);
    }
    lemma_trim_end(rest, drop, j - i);
    assert(rest.take(j - i) =~= s.subrange(i, j));
}

/// `text` without the white space at both its ends.
pub fn trim(text: &str) -> (out: String)
    ensures
        out@ == trimmed(text@),
{
    let all = chars(text);
    let mut from: usize = 0;
    while from < all.len() && white(all[from])
        invariant
            from <= all@.len(),
            forall|k: int| 0 <= k < from ==> is_white(#[trigger] all@[k]),
        decreases all@.len() - from,
    {
        from = from + 1;
    }
    let mut to: usize = all.len();
    while from < to && white(all[to - 1])
        invariant
            from <= to <= all@.len(),
            forall|k: int| to <= k < all@.len() ==> is_white(#[trigger] all@[k]),
        decreases to,
    {
        to = to - 1;
    }
    proof {
        lemma_trim(text@, white_chars(), from as int, to as int);
    }
    substring(&all, from, to)
}

/// `text` without the white space at its end.
pub fn trim_end(text: &str) -> (out: String)
    ensures
        out@ == trimmed_end(text@),
{
    let all = chars(text);
    let mut to: usize = all.len();
    while 0 < to && white(all[to - 1])
        invariant
            to <= all@.len(),
            forall|k: int| to <= k < all@.len() ==> is_white(#[trigger] all@[k]),
        decreases to,
    {
        to = to - 1;
    }
    proof {
        lemma_trim_end(text@, white_chars(), to as int);
        assert(text@.subrange(0, to as int) =~= text@.take(to as int));
    }
    substring(&all, 0, to)
}

/// Whether `text` is empty or all white space.
pub fn blank(text: &str) -> (yes: bool)
    ensures
        yes == (trimmed(text@).len() == 0),
{
    trim(text).as_str().is_empty()
}

// ---------------------------------------------------------------------------
// Words

/// The words that white space ends in `s`, and the one that `s` ends in the middle of.
pub open spec fn word_scan(s: Seq<char>) -> (Seq<Seq<char>>, Seq<char>)
    decreases s.len(),
{
    if s.len() == 0 {
        (Seq::empty(), Seq::empty())
    } else {
        let (done, current) = word_scan(s.drop_last());
        if !is_white(s.last()) {
            (done, current.push(s.last()))
        } else if current.len() > 0 {
            (done.push(current), Seq::empty())
        } else {
            (done, current)
        }
    }
}

/// The words of `s`: its longest runs of characters that are not white space.
pub open spec fn words_of(s: Seq<char>) -> Seq<Seq<char>> {
    let (done, current) = word_scan(s);
    if current.len() > 0 {
        done.push(current)
    } else {
        done
    }
}

/// The words of `text`.
pub fn words(text: &str) -> (out: Vec<String>)
    ensures
        views(out@) == words_of(text@),
{
    let all = chars(text);
    let mut out: Vec<String> = Vec::new();
    let mut current = String::new();
    let mut i: usize = 0;
    assert(text@.take(0) =~= Seq::empty());
    assert(views(out@) =~= Seq::empty());
    while i < all.len()
        invariant
            i <= all@.len(),
            all@ == text@,
            word_scan(text@.take(i as int)) == (views(out@), current@),
        decreases all@.len() - i,
    {
        let c = all[i];
        proof {
            assert(text@.take(i + 1).drop_last() =~= text@.take(i as int));
            assert(text@.take(i + 1).last() == c);
        }
        if !white(c) {
            current.push(c);
        } else if !current.as_str().is_empty() {
            proof {
                lemma_views_push(out@, current);
            }
            out.push(current);
            current = String::new();
        }
        i = i + 1;
    }
    assert(text@.take(text@.len() as int) =~= text@);
    if !current.as_str().is_empty() {
        proof {
            lemma_views_push(out@, current);
        }
        out.push(current);
    }
    out
}

// ---------------------------------------------------------------------------
// Searching

/// Whether `needle` stands in `hay` at position `i`.
pub open spec fn occurs_at<T>(hay: Seq<T>, needle: Seq<T>, i: int) -> bool {
    0 <= i && i + needle.len() <= hay.len() && hay.subrange(i, i + needle.len()) == needle
}

/// Whether `needle` stands somewhere in `hay`.
pub open spec fn occurs<T>(hay: Seq<T>, needle: Seq<T>) -> bool {
    exists|i: int| occurs_at(hay, needle, i)
}

/// Whether `s` begins with `prefix`.
pub open spec fn begins<T>(s: Seq<T>, prefix: Seq<T>) -> bool {
    occurs_at(s, prefix, 0)
}

/// Whether `s` ends with `suffix`.
pub open spec fn ends<T>(s: Seq<T>, suffix: Seq<T>) -> bool {
    occurs_at(s, suffix, s.len() - suffix.len())
}

/// Whether `needle` stands in `hay` at position `i`.
pub fn stands_at(hay: &[char], needle: &[char], i: usize) -> (yes: bool)
    ensures
        yes == occurs_at(hay@, needle@, i as int),
{
    if i > hay.len() || needle.len() > hay.len() - i {
        return false;
    }
    let length: usize = hay.len();
    let mut k: usize = 0;
    while k < needle.len()
        invariant
            k <= needle@.len(),
            i + needle@.len() <= hay@.len(),
            length == hay@.len(),
            forall|j: int| 0 <= j < k ==> hay@[i + j] == needle@[j],
        decreases needle@.len() - k,
    {
        if hay[i + k] != needle[k] {
            assert(hay@.subrange(i as int, i + needle@.len())[k as int] != needle@[k as int]);
            return false;
        }
        k = k + 1;
    }
    assert(hay@.subrange(i as int, i + needle@.len()) =~= needle@);
    true
}

/// The first position at or after `from` at which `needle` stands in `hay`.
pub fn find_from(hay: &[char], needle: &[char], from: usize) -> (found: Option<usize>)
    ensures
        match found {
            Some(at) => from <= at && occurs_at(hay@, needle@, at as int) && forall|i: int|
                from <= i < at ==> !occurs_at(hay@, needle@, i),
            None => forall|i: int| from <= i ==> !occurs_at(hay@, needle@, i),
        },
{
    let mut i: usize = from;
    while i <= hay.len() && needle.len() <= hay.len() - i
        invariant
            from <= i,
            forall|k: int| from <= k < i ==> !occurs_at(hay@, needle@, k),
        decreases hay@.len() + 1 - i,
    {
        if stands_at(hay, needle, i) {
            return Some(i);
        }
        if i == hay.len() {
            return None;
        }
        i = i + 1;
    }
    None
}

/// Whether `needle` stands somewhere in `hay`.
pub fn contains(hay: &str, needle: &str) -> (found: bool)
    ensures
        found == occurs(hay@, needle@),
{
    let hay = chars(hay);
    let needle = chars(needle);
    let found = find_from(&hay, &needle, 0);
    proof {
        if occurs(hay@, needle@) {
            let i = choose|i: int| occurs_at(hay@, needle@, i);
            assert(occurs_at(hay@, needle@, i));
        }
    }
    found.is_some()
}

/// Whether `c` stands somewhere in `text`.
pub fn has_char(text: &str, c: char) -> (found: bool)
    ensures
        found == text@.contains(c),
{
    let all = chars(text);
    let mut i: usize = 0;
    while i < all.len()
        invariant
            i <= all@.len(),
            all@ == text@,
            forall|k: int| 0 <= k < i ==> all@[k] != c,
        decreases all@.len() - i,
    {
        if all[i] == c {
            assert(text@[i as int] == c);
            return true;
        }
        i = i + 1;
    }
    false
}

/// Whether `text` begins with `prefix`.
pub fn starts_with(text: &str, prefix: &str) -> (yes: bool)
    ensures
        yes == begins(text@, prefix@),
{
    let all = chars(text);
    let prefix = chars(prefix);
    stands_at(&all, &prefix, 0)
}

/// Whether `text` ends with `suffix`.
pub fn ends_with(text: &str, suffix: &str) -> (yes: bool)
    ensures
        yes == ends(text@, suffix@),
{
    let all = chars(text);
    let suffix = chars(suffix);
    if suffix.len() > all.len() {
        return false;
    }
    stands_at(&all, &suffix, all.len() - suffix.len())
}

/// `text` without `suffix`, where it ends with it.
pub fn strip_suffix(text: &str, suffix: &str) -> (out: Option<String>)
    ensures
        match out {
            Some(rest) => ends(text@, suffix@) && rest@ == text@.take(
                text@.len() - suffix@.len(),
            ),
            None => !ends(text@, suffix@),
        },
{
    let all = chars(text);
    let suffix = chars(suffix);
    if suffix.len() > all.len() || !stands_at(&all, &suffix, all.len() - suffix.len()) {
        return None;
    }
    let kept: usize = all.len() - suffix.len();
    assert(text@.subrange(0, kept as int) =~= text@.take(kept as int));
    Some(substring(&all, 0, kept))
}

/// The parts of `s` before and after the first `separator`.
pub open spec fn cut_once(s: Seq<char>, separator: char) -> Option<(Seq<char>, Seq<char>)> {
    if s.contains(separator) {
        let at = s.index_of_first(separator)->0;
        Some((s.take(at), s.skip(at + 1)))
    } else {
        None
    }
}

/// The parts of `text` before and after the first `separator`.
pub fn split_once(text: &str, separator: char) -> (out: Option<(String, String)>)
    ensures
        match out {
            Some(parts) => cut_once(text@, separator) == Some((parts.0@, parts.1@)),
            None => cut_once(text@, separator) is None,
        },
{
    let all = chars(text);
    proof {
        text@.index_of_first_ensures(separator);
    }
    let mut i: usize = 0;
    while i < all.len()
        invariant
            i <= all@.len(),
            all@ == text@,
            forall|k: int| 0 <= k < i ==> all@[k] != separator,
            text@.contains(separator) ==> (text@.index_of_first(separator) matches Some(at) && (0
                <= at < text@.len() && text@[at] == separator && forall|j: int|
                0 <= j < at ==> text@[j] != separator)),
        decreases all@.len() - i,
    {
        if all[i] == separator {
            assert(text@.index_of_first(separator) == Some(i as int));
            assert(text@.subrange(0, i as int) =~= text@.take(i as int));
            assert(text@.subrange(i + 1, text@.len() as int) =~= text@.skip(i + 1));
            return Some((substring(&all, 0, i), substring(&all, i + 1, all.len())));
        }
        i = i + 1;
    }
    None
}

} // verus!
