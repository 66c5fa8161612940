//! Numbers in texts: how they are written, and what reads them back.
use crate::{number, text};
use vstd::prelude::*;

verus! {

/// One digit stands for itself, and what stands before the last digit is a tenth.
pub proof fn numbers_are_written_digit_by_digit(n: nat, digit: nat)
    requires
        digit < 10,
    ensures
        number::decimal_seq(digit) == seq![(48 + digit) as char],
        n > 0 ==> number::decimal_seq(10 * n + digit) == number::decimal_seq(n).push(
            (48 + digit) as char,
        ),
        n > 0 ==> number::decimal_int(-(n as int)) == seq!['-'] + number::decimal_seq(n),
        number::decimal_int(n as int) == number::decimal_seq(n),
{
    if n > 0 {
        let m = 10 * n + digit;
        assert(m / 10 == n && m % 10 == digit);
        assert(m >= 10);
    }
}

/// Short numbers are filled up with zeros in front, and long ones are left as they are.
pub proof fn padding_is_made_of_zeros(n: nat, width: nat)
    ensures
        number::padded_seq(n, width).len() == if number::decimal_seq(n).len() < width {
            width
        } else {
            number::decimal_seq(n).len()
        },
        text::ends(number::padded_seq(n, width), number::decimal_seq(n)),
        forall|i: int|
            0 <= i < number::padded_seq(n, width).len() - number::decimal_seq(n).len()
                ==> #[trigger] number::padded_seq(n, width)[i] == '0',
{
    let digits = number::decimal_seq(n);
    let all = number::padded_seq(n, width);
    assert(all.subrange(all.len() - digits.len(), all.len() as int) =~= digits);
}

/// A number that is written is read back where it is within the limits, and is refused where it is
/// not. A plus sign in front changes nothing.
pub proof fn written_numbers_are_read_back(n: int, min: int, max: int)
    requires
        min <= 0 <= max,
    ensures
        min <= n <= max ==> number::parse_signed(number::decimal_int(n), min, max) == Some(n),
        0 <= n <= max ==> number::parse_signed(seq!['+'] + number::decimal_int(n), min, max)
            == Some(n),
        0 <= n <= max ==> number::parse_unsigned(number::decimal_int(n), max as nat) == Some(
            n as nat,
        ),
        0 <= n <= max ==> number::parse_unsigned(seq!['+'] + number::decimal_int(n), max as nat)
            == Some(n as nat),
        n > max || n < min ==> number::parse_signed(number::decimal_int(n), min, max) is None,
        n > max || n < 0 ==> number::parse_unsigned(number::decimal_int(n), max as nat) is None,
{
    let size = if n < 0 {
        (-n) as nat
    } else {
        n as nat
    };
    let digits = number::decimal_seq(size);
    number::decimal_form_reads_back(size);
    assert(text::is_digit(digits[0]));
    if n < 0 {
        assert(number::decimal_int(n).skip(1) =~= digits);
        assert(number::decimal_int(n)[0] == '-');
        assert(!text::is_digit('-'));
    } else {
        assert((seq!['+'] + digits).skip(1) =~= digits);
        assert((seq!['+'] + digits)[0] == '+');
        assert(digits[0] != '-' && digits[0] != '+');
    }
}

/// What is read as a number is made of digits, behind one sign or none, and is within the limits.
pub proof fn only_digits_make_numbers(s: Seq<char>, min: int, max: int)
    requires
        min <= 0 <= max,
    ensures
        number::parse_signed(s, min, max) matches Some(n) ==> min <= n <= max && s.len() > 0,
        number::parse_signed(s, min, max) is Some ==> forall|i: int|
            1 <= i < s.len() ==> '0' <= #[trigger] s[i] <= '9',
        number::parse_signed(s, min, max) is Some ==> ('0' <= s[0] <= '9' || ((s[0] == '+' || s[0]
            == '-') && s.len() > 1)),
        number::parse_unsigned(s, max as nat) is Some ==> s.len() > 0 && (forall|i: int|
            1 <= i < s.len() ==> '0' <= #[trigger] s[i] <= '9') && ('0' <= s[0] <= '9' || (s[0]
            == '+' && s.len() > 1)),
{
    let behind = s.skip(1);
    assert forall|i: int| 1 <= i < s.len() implies s[i] == #[trigger] behind[i - 1] by {}
    if number::parse_signed(s, min, max) is Some || number::parse_unsigned(s, max as nat) is Some {
        if s.len() > 0 {
            assert forall|i: int|
                1 <= i < s.len() && number::all_digits(behind) implies '0' <= #[trigger] s[i]
                <= '9' by {
                assert(text::is_digit(behind[i - 1]));
            }
            if number::all_digits(s) {
                assert(text::is_digit(s[0]));
                assert forall|i: int| 1 <= i < s.len() implies '0' <= #[trigger] s[i] <= '9' by {
                    assert(text::is_digit(s[i]));
                }
            }
        }
    }
}

/// One more digit behind a number makes it ten times as large, and adds the digit. What is too large
/// is refused, however many zeros are in front.
pub proof fn digits_add_up(s: Seq<char>, n: nat, digit: nat, max: nat)
    requires
        digit < 10,
        number::parse_unsigned(s, max) == Some(n),
    ensures
        10 * n + digit <= max ==> number::parse_unsigned(s.push((48 + digit) as char), max) == Some(
            10 * n + digit,
        ),
        10 * n + digit > max ==> number::parse_unsigned(s.push((48 + digit) as char), max) is None,
{
    let c = (48 + digit) as char;
    let all = s.push(c);
    let body = if s[0] == '+' {
        s.skip(1)
    } else {
        s
    };
    let longer = body.push(c);
    assert(all[0] == s[0]);
    if s[0] == '+' {
        assert(all.skip(1) =~= longer);
    }
    assert(longer.drop_last() =~= body);
    assert(longer.last() == c);
    assert(number::digits_value(longer) == n * 10 + digit);
    assert forall|i: int| 0 <= i < longer.len() implies text::is_digit(#[trigger] longer[i]) by {
        if i < body.len() {
            assert(text::is_digit(body[i]));
        }
    }
}

} // verus!
