//! Texts: what trimming, splitting and searching make of texts that were put together.
use crate::{session, text};
use vstd::prelude::*;

verus! {

/// A text of white space alone.
pub open spec fn all_white(s: Seq<char>) -> bool {
    forall|i: int| 0 <= i < s.len() ==> text::is_white(#[trigger] s[i])
}

/// A text without white space.
pub open spec fn no_white(s: Seq<char>) -> bool {
    forall|i: int| 0 <= i < s.len() ==> !text::is_white(#[trigger] s[i])
}

/// White space is what Unicode calls so.
pub proof fn white_space_is_known(c: char)
    ensures
        text::is_white(c) <==> {
            let n = c as u32;
            9 <= n <= 13 || n == 32 || n == 0x85 || n == 0xa0 || n == 0x1680 || 0x2000 <= n
                <= 0x200a || n == 0x2028 || n == 0x2029 || n == 0x202f || n == 0x205f || n == 0x3000
        },
{
}

/// Trimming takes away the white space around a text, and nothing else.
pub proof fn trimming_leaves_the_text(front: Seq<char>, s: Seq<char>, back: Seq<char>)
    requires
        all_white(front),
        all_white(back),
        s.len() > 0 ==> !text::is_white(s[0]) && !text::is_white(s.last()),
    ensures
        text::trimmed(front + s + back) == s,
        text::trimmed_end(front + s + back) == if s.len() > 0 {
            front + s
        } else {
            Seq::empty()
        },
{
    let all = front + s + back;
    let white = text::white_chars();
    if s.len() > 0 {
        let i = front.len() as int;
        let j = i + s.len();
        assert forall|k: int| 0 <= k < i implies white(#[trigger] all[k]) by {
            assert(all[k] == front[k]);
        }
        assert forall|k: int| j <= k < all.len() implies white(#[trigger] all[k]) by {
            assert(all[k] == back[k - j]);
        }
        assert(all[i] == s[0]);
        assert(all[j - 1] == s.last());
        text::lemma_trim(all, white, i, j);
        text::lemma_trim_end(all, white, j);
        assert(all.subrange(i, j) =~= s);
        assert(all.take(j) =~= front + s);
    } else {
        let n = all.len() as int;
        assert forall|k: int| 0 <= k < n implies white(#[trigger] all[k]) by {
            if k < front.len() {
                assert(all[k] == front[k]);
            } else {
                assert(all[k] == back[k - front.len()]);
            }
        }
        text::lemma_trim(all, white, n, n);
        text::lemma_trim_end(all, white, 0);
        assert(all.subrange(n, n) =~= s);
        assert(all.take(0) =~= Seq::empty());
    }
}

proof fn lemma_scan_white(s: Seq<char>, c: char, more: Seq<char>)
    requires
        text::is_white(c),
    ensures
        ({
            let (done, current) = text::word_scan(more);
            text::word_scan(s + seq![c] + more) == (text::words_of(s) + done, current)
        }),
    decreases more.len(),
{
    let all = s + seq![c] + more;
    if more.len() == 0 {
        assert(all.drop_last() =~= s);
        let (done, current) = text::word_scan(s);
        assert(text::word_scan(all).0 =~= text::words_of(s) + Seq::empty());
    } else {
        let less = more.drop_last();
        lemma_scan_white(s, c, less);
        assert(all.drop_last() =~= s + seq![c] + less);
        let (done, current) = text::word_scan(less);
        assert(text::words_of(s) + done.push(current) =~= (text::words_of(s) + done).push(current));
    }
}

proof fn lemma_scan_word(s: Seq<char>)
    requires
        no_white(s),
    ensures
        text::word_scan(s) == (Seq::<Seq<char>>::empty(), s),
    decreases s.len(),
{
    if s.len() > 0 {
        let less = s.drop_last();
        assert(no_white(less)) by {
            assert forall|i: int| 0 <= i < less.len() implies !text::is_white(
                #[trigger] less[i],
            ) by {
                assert(less[i] == s[i]);
            }
        }
        lemma_scan_word(less);
        assert(!text::is_white(s[s.len() - 1]));
        assert(less.push(s.last()) =~= s);
    } else {
        assert(s =~= Seq::empty());
    }
}

/// White space between two texts parts their words, and a text without white space is one word.
pub proof fn white_space_parts_words(first: Seq<char>, c: char, second: Seq<char>)
    ensures
        text::is_white(c) ==> text::words_of(first + seq![c] + second) == text::words_of(first)
            + text::words_of(second),
        no_white(first) && first.len() > 0 ==> text::words_of(first) == seq![first],
        first.len() == 0 ==> text::words_of(first) == Seq::<Seq<char>>::empty(),
{
    if text::is_white(c) {
        lemma_scan_white(first, c, second);
        let (done, current) = text::word_scan(second);
        assert(text::words_of(first) + done.push(current) =~= (text::words_of(first) + done).push(
            current,
        ));
    }
    if no_white(first) {
        lemma_scan_word(first);
        assert(Seq::<Seq<char>>::empty().push(first) =~= seq![first]);
    }
}

proof fn lemma_split_front(head: Seq<char>, separator: char, tail: Seq<char>)
    requires
        !head.contains(separator),
    ensures
        text::split_on(head + seq![separator] + tail, separator) == seq![head] + text::split_on(
            tail,
            separator,
        ),
    decreases tail.len(),
{
    let all = head + seq![separator] + tail;
    if tail.len() == 0 {
        assert(all.drop_last() =~= head);
        text::lemma_split_single(head, separator);
        assert(seq![head].push(Seq::empty()) =~= seq![head] + seq![Seq::<char>::empty()]);
    } else {
        let less = tail.drop_last();
        lemma_split_front(head, separator, less);
        text::lemma_split_pieces(less, separator);
        assert(all.drop_last() =~= head + seq![separator] + less);
        let before = text::split_on(less, separator);
        if tail.last() == separator {
            assert((seq![head] + before).push(Seq::empty()) =~= seq![head] + before.push(
                Seq::empty(),
            ));
        } else {
            assert((seq![head] + before).drop_last().push(
                (seq![head] + before).last().push(tail.last()),
            ) =~= seq![head] + before.drop_last().push(before.last().push(tail.last())));
        }
    }
}

/// A separator ends the first piece of a text, and a text without it is one piece.
pub proof fn separators_part_pieces(head: Seq<char>, separator: char, tail: Seq<char>)
    requires
        !head.contains(separator),
    ensures
        text::split_on(head + seq![separator] + tail, separator) == seq![head] + text::split_on(
            tail,
            separator,
        ),
        text::split_on(head, separator) == seq![head],
        text::cut_once(head + seq![separator] + tail, separator) == Some((head, tail)),
        text::cut_once(head, separator) is None,
{
    lemma_split_front(head, separator, tail);
    text::lemma_split_single(head, separator);
    let all = head + seq![separator] + tail;
    assert(all[head.len() as int] == separator);
    assert(all.contains(separator));
    all.index_of_first_ensures(separator);
    let at = all.index_of_first(separator)->0;
    assert(at == head.len()) by {
        if at < head.len() {
            assert(head[at] == separator);
        }
    }
    assert(all.take(at) =~= head);
    assert(all.skip(at + 1) =~= tail);
}

/// A line feed ends a line, with a carriage return before it or not. A text without one is its last
/// line, unless it is empty.
pub proof fn line_feeds_end_lines(line: Seq<char>, rest: Seq<char>)
    requires
        !line.contains('\n'),
    ensures
        text::lines_of(line + seq!['\n'] + rest) == seq![
            if line.len() > 0 && line.last() == '\r' {
                line.drop_last()
            } else {
                line
            },
        ] + text::lines_of(rest),
        line.len() > 0 ==> text::lines_of(line) == seq![line],
        line.len() == 0 ==> text::lines_of(line) == Seq::<Seq<char>>::empty(),
{
    lemma_split_front(line, '\n', rest);
    text::lemma_split_single(line, '\n');
    text::lemma_split_pieces(rest, '\n');
    let shown = if line.len() > 0 && line.last() == '\r' {
        line.drop_last()
    } else {
        line
    };
    assert(text::lines_of(line + seq!['\n'] + rest) =~= seq![shown] + text::lines_of(rest));
    if line.len() > 0 {
        assert(text::lines_of(line) =~= seq![line]);
    } else {
        assert(text::lines_of(line) =~= Seq::empty());
    }
}

/// A text occurs in another exactly when the other is made of it and what stands around it.
pub proof fn texts_occur_in_what_they_make(before: Seq<char>, s: Seq<char>, behind: Seq<char>)
    ensures
        text::occurs(before + s + behind, s),
        text::begins(s + behind, s),
        text::ends(before + s, s),
{
    let all = before + s + behind;
    let i = before.len() as int;
    assert(all.subrange(i, i + s.len()) =~= s);
    assert(text::occurs_at(all, s, i));
    assert((s + behind).subrange(0, s.len() as int) =~= s);
    assert((before + s).subrange(i, i + s.len()) =~= s);
}

/// The converse: what begins with, ends with or holds a text is made of it.
pub proof fn what_holds_a_text_is_made_of_it(all: Seq<char>, s: Seq<char>)
    ensures
        text::begins(all, s) ==> all == s + all.skip(s.len() as int),
        text::ends(all, s) ==> all == all.take(all.len() - s.len()) + s,
        text::occurs(all, s) ==> exists|before: Seq<char>, behind: Seq<char>|
            all == #[trigger] (before + s + behind),
{
    let n = s.len() as int;
    if text::begins(all, s) {
        lemma_held(all, s, 0);
        assert(all.take(0) + s + all.skip(n) =~= s + all.skip(n));
    }
    if text::ends(all, s) {
        lemma_held(all, s, all.len() - n);
        assert(all.take(all.len() - n) + s + all.skip(all.len() as int) =~= all.take(all.len() - n)
            + s);
    }
    if text::occurs(all, s) {
        let i = choose|i: int| text::occurs_at(all, s, i);
        lemma_held(all, s, i);
        let before = all.take(i);
        let behind = all.skip(i + n);
        assert(all == before + s + behind);
    }
}

proof fn lemma_held(all: Seq<char>, s: Seq<char>, i: int)
    requires
        0 <= i,
        i + s.len() <= all.len(),
        all.subrange(i, i + s.len()) == s,
    ensures
        all == all.take(i) + s + all.skip(i + s.len()),
{
    let made = all.take(i) + s + all.skip(i + s.len());
    assert forall|k: int| 0 <= k < all.len() implies all[k] == made[k] by {
        if i <= k < i + s.len() {
            assert(all.subrange(i, i + s.len())[k - i] == all[k]);
        }
    }
    assert(all =~= made);
}

/// Lower case changes the letters from A to Z to those from a to z, and nothing else.
pub proof fn lower_case_changes_letters_alone(s: Seq<char>, i: int)
    requires
        0 <= i < s.len(),
    ensures
        text::lower_seq(s).len() == s.len(),
        'A' <= s[i] <= 'Z' ==> text::lower_seq(s)[i] as u32 == s[i] as u32 + 32,
        !('A' <= s[i] <= 'Z') ==> text::lower_seq(s)[i] == s[i],
{
}

// ---------------------------------------------------------------------------
// Slugs

/// A text of letters and digits of ASCII alone.
pub open spec fn all_alnum(s: Seq<char>) -> bool {
    forall|i: int|
        0 <= i < s.len() ==> ('0' <= #[trigger] s[i] <= '9' || 'A' <= s[i] <= 'Z' || 'a' <= s[i]
            <= 'z')
}

spec fn marked(s: Seq<char>) -> Seq<char> {
    Seq::new(s.len(), |i: int| session::slug_char(s[i]))
}

proof fn lemma_split_both(first: Seq<char>, second: Seq<char>)
    ensures
        text::split_on(first + seq!['-'] + second, '-') == text::split_on(first, '-')
            + text::split_on(second, '-'),
    decreases second.len(),
{
    let all = first + seq!['-'] + second;
    let front = text::split_on(first, '-');
    if second.len() == 0 {
        assert(all.drop_last() =~= first);
        assert(front.push(Seq::empty()) =~= front + seq![Seq::<char>::empty()]);
    } else {
        let less = second.drop_last();
        lemma_split_both(first, less);
        text::lemma_split_pieces(less, '-');
        assert(all.drop_last() =~= first + seq!['-'] + less);
        let before = text::split_on(less, '-');
        if second.last() == '-' {
            assert((front + before).push(Seq::empty()) =~= front + before.push(Seq::empty()));
        } else {
            assert((front + before).drop_last().push((front + before).last().push(second.last()))
                =~= front + before.drop_last().push(before.last().push(second.last())));
        }
    }
}

proof fn lemma_nonempty_both(first: Seq<Seq<char>>, second: Seq<Seq<char>>)
    ensures
        session::nonempty(first + second) == session::nonempty(first) + session::nonempty(second),
    decreases second.len(),
{
    let all = first + second;
    if second.len() == 0 {
        assert(all =~= first);
        assert(session::nonempty(first) + Seq::empty() =~= session::nonempty(first));
    } else {
        lemma_nonempty_both(first, second.drop_last());
        assert(all.drop_last() =~= first + second.drop_last());
        let a = session::nonempty(first);
        let b = session::nonempty(second.drop_last());
        assert((a + b).push(second.last()) =~= a + b.push(second.last()));
    }
}

proof fn lemma_join_both(first: Seq<Seq<char>>, second: Seq<Seq<char>>)
    requires
        first.len() > 0,
        second.len() > 0,
    ensures
        text::join_seq(first + second, "-"@) == text::join_seq(first, "-"@) + "-"@
            + text::join_seq(second, "-"@),
    decreases second.len(),
{
    let all = first + second;
    let a = text::join_seq(first, "-"@);
    if second.len() == 1 {
        assert(all.drop_last() =~= first);
        assert(all.last() == second[0]);
    } else {
        lemma_join_both(first, second.drop_last());
        assert(all.drop_last() =~= first + second.drop_last());
        assert(all.last() == second.last());
        let b = text::join_seq(second.drop_last(), "-"@);
        assert(a + "-"@ + b + "-"@ + second.last() =~= a + "-"@ + (b + "-"@ + second.last()));
    }
}

/// The letters and digits of a text stay in its slug, in lower case and in order; anything between
/// two words of them becomes one dash, and anything around them is dropped.
pub proof fn slugs_keep_the_words(first: Seq<char>, c: char, second: Seq<char>)
    ensures
        all_alnum(first) ==> session::dashed(first) == text::lower_seq(first),
        !all_alnum(seq![c]) ==> session::dashed(first + seq![c] + second) == if session::dashed(
            first,
        ).len() == 0 {
            session::dashed(second)
        } else if session::dashed(second).len() == 0 {
            session::dashed(first)
        } else {
            session::dashed(first) + "-"@ + session::dashed(second)
        },
        session::slug(first) == if session::dashed(first).len() == 0 {
            "text"@
        } else {
            session::dashed(first)
        },
{
    if all_alnum(first) {
        let m = marked(first);
        assert(m =~= text::lower_seq(first));
        assert(!m.contains('-')) by {
            if m.contains('-') {
                let i = choose|i: int| 0 <= i < m.len() && m[i] == '-';
                assert('0' <= first[i] <= '9' || 'A' <= first[i] <= 'Z' || 'a' <= first[i] <= 'z');
            }
        }
        text::lemma_split_single(m, '-');
        reveal_with_fuel(session::nonempty, 2);
        assert(seq![m].drop_last() =~= Seq::empty());
        if m.len() == 0 {
            assert(session::nonempty(seq![m]) =~= Seq::empty());
        } else {
            assert(session::nonempty(seq![m]) =~= seq![m]);
        }
    }
    if !all_alnum(seq![c]) {
        let only = seq![c];
        assert(only[0] == c);
        assert(session::slug_char(c) == '-');
        let a = marked(first);
        let b = marked(second);
        assert(marked(first + seq![c] + second) =~= a + seq!['-'] + b);
        lemma_split_both(a, b);
        let x = text::split_on(a, '-');
        let y = text::split_on(b, '-');
        lemma_nonempty_both(x, y);
        let kept = session::nonempty(x);
        let more = session::nonempty(y);
        text::lemma_split_pieces(a, '-');
        text::lemma_split_pieces(b, '-');
        session::lemma_nonempty_pieces(x);
        session::lemma_nonempty_pieces(y);
        session::lemma_join_separates(kept);
        session::lemma_join_separates(more);
        if kept.len() == 0 {
            assert(kept + more =~= more);
        } else if more.len() == 0 {
            assert(kept + more =~= kept);
        } else {
            lemma_join_both(kept, more);
        }
    }
}

/// The kinds of characters that are told apart, all of them of ASCII.
pub proof fn characters_have_kinds(c: char, s: Seq<char>)
    ensures
        text::is_digit(c) <==> '0' <= c <= '9',
        text::is_ascii_upper(c) <==> 'A' <= c <= 'Z',
        text::is_ascii_lower(c) <==> 'a' <= c <= 'z',
        text::is_ascii_alnum(c) <==> '0' <= c <= '9' || 'A' <= c <= 'Z' || 'a' <= c <= 'z',
        text::is_ascii(c) <==> c <= '\x7f',
        text::is_ascii_graphic(c) <==> '!' <= c <= '~',
        text::all_ascii(s) <==> forall|i: int| 0 <= i < s.len() ==> #[trigger] s[i] <= '\x7f',
{
    if forall|i: int| 0 <= i < s.len() ==> #[trigger] s[i] <= '\x7f' {
        assert forall|i: int| 0 <= i < s.len() implies text::is_ascii(#[trigger] s[i]) by {}
    }
    if text::all_ascii(s) {
        assert forall|i: int| 0 <= i < s.len() implies #[trigger] s[i] <= '\x7f' by {
            assert(text::is_ascii(s[i]));
        }
    }
}

} // verus!
