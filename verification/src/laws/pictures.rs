//! Pictures of windows: their sizes, their interiors, and where labels stand on them.
use crate::screenshot::desktop::Window;
use crate::screenshot::images;
use crate::screenshot::images::Region;
use crate::{number, ocr, text};
use vstd::prelude::*;

verus! {

// ---------------------------------------------------------------------------
// Sizes

/// A picture is described by its kind, its width and its height. It must be a PNG with something on
/// it.
pub proof fn pictures_are_described(described: Seq<char>, width: nat, height: nat)
    requires
        width <= u32::MAX,
        height <= u32::MAX,
    ensures
        text::words_of(described) == seq![
            "PNG"@,
            number::decimal_seq(width),
            number::decimal_seq(height),
        ] && width > 0 && height > 0 ==> images::described_size(described) == Ok::<
            (nat, nat),
            Seq<char>,
        >((width, height)),
        text::words_of(described) == seq![
            "PNG"@,
            number::decimal_seq(width),
            number::decimal_seq(height),
        ] && (width == 0 || height == 0) ==> images::described_size(described) == Err::<
            (nat, nat),
            Seq<char>,
        >("empty capture image"@),
        text::words_of(described).len() != 3 || text::words_of(described)[0] != "PNG"@
            ==> images::described_size(described) == Err::<(nat, nat), Seq<char>>(
            "capture must be one PNG image"@,
        ),
{
    number::parse_of_decimal(width, u32::MAX as nat);
    number::parse_of_decimal(height, u32::MAX as nat);
    let fields = seq!["PNG"@, number::decimal_seq(width), number::decimal_seq(height)];
    if text::words_of(described) == fields {
        assert(fields[0] == "PNG"@);
        assert(fields[1] == number::decimal_seq(width));
        assert(fields[2] == number::decimal_seq(height));
    }
}

/// A width that is no number is told before a height that is none.
pub proof fn wrong_sizes_are_told(described: Seq<char>)
    requires
        text::words_of(described).len() == 3,
        text::words_of(described)[0] == "PNG"@,
    ensures
        ({
            let fields = text::words_of(described);
            let max = 0xffff_ffff;
            &&& number::parse_unsigned(fields[1], max) is None ==> images::described_size(described)
                == Err::<(nat, nat), Seq<char>>(images::number_fault(fields[1]))
            &&& number::parse_unsigned(fields[1], max) is Some && number::parse_unsigned(
                fields[2],
                max,
            ) is None ==> images::described_size(described) == Err::<(nat, nat), Seq<char>>(
                images::number_fault(fields[2]),
            )
        }),
{
}

/// What is wrong with a number is told: nothing at all, a number that is too large, or a character
/// that is no digit. Of these, the first that comes up from the front counts.
pub proof fn wrong_numbers_are_told(n: nat, digits: Seq<char>, c: char, rest: Seq<char>)
    requires
        number::all_digits(digits),
        !text::is_digit(c),
        c != '+' || digits.len() > 0,
    ensures
        images::number_fault(Seq::empty()) == "cannot parse integer from empty string"@,
        n > u32::MAX ==> images::number_fault(number::decimal_seq(n))
            == "number too large to fit in target type"@,
        number::digits_value(digits) <= u32::MAX ==> images::number_fault(
            digits + seq![c] + rest,
        ) == "invalid digit found in string"@,
{
    if n > u32::MAX {
        let s = number::decimal_seq(n);
        number::decimal_form_reads_back(n);
        assert(text::is_digit(s[0]));
        assert(s.take(s.len() as int) =~= s);
        assert(images::outgrows(s));
    }
    let all = digits + seq![c] + rest;
    if number::digits_value(digits) <= u32::MAX {
        if digits.len() > 0 {
            assert(text::is_digit(digits[0]));
            assert(all[0] == digits[0]);
        } else {
            assert(all[0] == c);
        }
        assert(!images::outgrows(all)) by {
            if images::outgrows(all) {
                let k = choose|k: int|
                    0 <= k <= all.len() && number::all_digits(#[trigger] all.take(k))
                        && number::digits_value(all.take(k)) > u32::MAX;
                if k > digits.len() {
                    assert(all.take(k)[digits.len() as int] == c);
                } else {
                    assert(all.take(k) =~= digits.take(k));
                    number::lemma_value_monotone(digits, k);
                }
            }
        }
    }
}

// ---------------------------------------------------------------------------
// Interiors

/// The interior of a window leaves out eight pixels at each side, and at the top the header too: a
/// quarter of the window, but no more than 64 pixels. It is told where it is in the picture, which
/// begins where the buffer does.
pub proof fn interiors_leave_out_the_edges(window: Window)
    ensures
        ({
            let (x, y, width, height) = images::interior(window);
            let header = if window.frame.height >= 256 {
                64int
            } else {
                window.frame.height as int / 4
            };
            &&& window.buffer.x + x == window.frame.x + 8
            &&& window.buffer.y + y == window.frame.y + header + 8
            &&& window.frame.width >= 16 ==> width == window.frame.width - 16
            &&& window.frame.width < 16 ==> width == 0
            &&& window.frame.height >= header + 16 ==> height == window.frame.height - header - 16
            &&& window.frame.height < header + 16 ==> height == 0
        }),
{
}

/// An interior fits where it is not empty and lies within the picture on all sides.
pub proof fn interiors_lie_within_their_pictures(window: Window, width: nat, height: nat)
    ensures
        ({
            let (x, y, w, h) = images::interior(window);
            images::interior_fits(window, width, height) <==> {
                &&& 0 <= x
                &&& 0 <= y
                &&& w > 0
                &&& h > 0
                &&& x + w <= width
                &&& y + h <= height
            }
        }),
{
}

/// A region is written as its size and its place.
pub proof fn regions_are_written(region: Region)
    ensures
        images::region_text(region) == number::decimal_seq(region.width as nat) + seq!['x']
            + number::decimal_seq(region.height as nat) + seq!['+'] + number::decimal_int(
            region.x as int,
        ) + seq!['+'] + number::decimal_int(region.y as int),
{
    reveal_strlit("x");
    reveal_strlit("+");
    assert("x"@ =~= seq!['x']);
    assert("+"@ =~= seq!['+']);
}

/// What a picture's description is refused for: bytes that are no text, a wrong size, or no room for
/// the interior of the window.
pub proof fn descriptions_are_refused(window: Window, stdout: Seq<u8>)
    ensures
        !vstd::utf8::valid_utf8(stdout) ==> images::description_fault(window, stdout) == Some(
            text::utf8_complaint(stdout),
        ),
        vstd::utf8::valid_utf8(stdout) ==> match images::described_size(
            vstd::utf8::decode_utf8(stdout),
        ) {
            Err(fault) => images::description_fault(window, stdout) == Some(fault),
            Ok(size) => images::description_fault(window, stdout) == if images::interior_fits(
                window,
                size.0,
                size.1,
            ) {
                None
            } else {
                Some("invalid window content geometry"@)
            },
        },
{
}

/// How a picture is made ready for reading, and read.
pub proof fn pictures_are_made_readable()
    ensures
        images::enlarge_arguments() == seq![
            "-background"@,
            "white"@,
            "-alpha"@,
            "remove"@,
            "-alpha"@,
            "off"@,
            "-resize"@,
            "200%"@,
        ],
        images::contrast_arguments() == seq!["-colorspace"@, "Gray"@, "-threshold"@, "60%"@],
        images::read_arguments() == seq!["stdout"@, "-l"@, "eng"@, "--psm"@, "11"@, "tsv"@],
{
}

// ---------------------------------------------------------------------------
// Labels

/// Whether a place is more than eight halves of a pixel away from all of some others.
pub open spec fn is_far(point: (int, int), others: Seq<(int, int)>) -> bool {
    forall|i: int|
        0 <= i < others.len() ==> (point.0 - (#[trigger] others[i]).0) * (point.0 - others[i].0) + (
        point.1 - others[i].1) * (point.1 - others[i].1) > 8 * 8
}

proof fn lemma_far(point: (int, int), others: Seq<(int, int)>)
    ensures
        images::close_to_any(point, others) == !is_far(point, others),
{
    assert forall|i: int| 0 <= i < others.len() implies images::close(#[trigger] others[i], point)
        == ((point.0 - others[i].0) * (point.0 - others[i].0) + (point.1 - others[i].1) * (point.1
        - others[i].1) <= 64) by {
        let a = others[i];
        assert((a.0 - point.0) * (a.0 - point.0) == (point.0 - a.0) * (point.0 - a.0))
            by (nonlinear_arith);
        assert((a.1 - point.1) * (a.1 - point.1) == (point.1 - a.1) * (point.1 - a.1))
            by (nonlinear_arith);
    }
    if images::close_to_any(point, others) {
        let i = choose|i: int| 0 <= i < others.len() && images::close(#[trigger] others[i], point);
        assert(images::close(others[i], point));
    } else {
        assert forall|i: int| 0 <= i < others.len() implies (point.0 - (#[trigger] others[i]).0) * (
        point.0 - others[i].0) + (point.1 - others[i].1) * (point.1 - others[i].1) > 8 * 8 by {
            assert(!images::close(others[i], point));
        }
    }
}

/// A further reading adds the places that are far from all that were known before it, in order, and
/// takes none away.
pub proof fn readings_add_new_places(known: Seq<(int, int)>, found: Seq<(int, int)>)
    ensures
        images::with_new(known, found) == known + found.filter(
            |point: (int, int)| is_far(point, known),
        ),
    decreases found.len(),
{
    reveal(Seq::filter);
    let far = |point: (int, int)| is_far(point, known);
    if found.len() == 0 {
        assert(known + found.filter(far) =~= known);
    } else {
        let less = found.drop_last();
        readings_add_new_places(known, less);
        lemma_far(found.last(), known);
        if far(found.last()) {
            assert((known + less.filter(far)).push(found.last()) =~= known + less.filter(far).push(
                found.last(),
            ));
        }
    }
}

/// The places of a label in one reading are those in its table. Each further reading adds what is
/// new in its own.
pub proof fn labels_are_read_again(passes: Seq<Seq<char>>, last: Seq<char>, label: Seq<char>)
    ensures
        images::label_matches(Seq::empty(), label) == Seq::<(int, int)>::empty(),
        images::label_matches(seq![last], label) == ocr::text_centers(
            ocr::table_words(last),
            ocr::normal_words(label),
        ),
        images::label_matches(passes.push(last), label) == ({
            let known = images::label_matches(passes, label);
            known + ocr::text_centers(
                ocr::table_words(last),
                ocr::normal_words(label),
            ).filter(|point: (int, int)| is_far(point, known))
        }),
{
    let places = ocr::text_centers(ocr::table_words(last), ocr::normal_words(label));
    let none = Seq::<(int, int)>::empty();
    let known = images::label_matches(passes, label);
    assert(passes.push(last).drop_last() =~= passes);
    assert(passes.push(last).last() == last);
    readings_add_new_places(known, places);
    let one = seq![last];
    assert(one.drop_last() =~= Seq::empty());
    assert(images::label_matches(one.drop_last(), label) =~= none);
    lemma_all_new(places);
    assert(images::label_matches(one, label) == images::with_new(none, places));
}

proof fn lemma_all_new(found: Seq<(int, int)>)
    ensures
        images::with_new(Seq::empty(), found) == found,
    decreases found.len(),
{
    let none = Seq::<(int, int)>::empty();
    if found.len() == 0 {
        assert(found =~= none);
    } else {
        lemma_all_new(found.drop_last());
        lemma_far(found.last(), none);
        assert(found.drop_last().push(found.last()) =~= found);
    }
}

} // verus!
