//! Integers written in decimal.
use crate::text;
use crate::text::chars;
use vstd::prelude::*;

verus! {

// ---------------------------------------------------------------------------
// Writing

/// The digit for a value below ten.
pub open spec fn digit_char(value: nat) -> char {
    (48 + value) as char
}

/// The shortest decimal form of `n`.
pub open spec fn decimal_seq(n: nat) -> Seq<char>
    decreases n,
{
    if n < 10 {
        seq![digit_char(n)]
    } else {
        decimal_seq(n / 10).push(digit_char(n % 10))
    }
}

/// The decimal form of `n`, with a minus sign where it is negative.
pub open spec fn decimal_int(n: int) -> Seq<char> {
    if n < 0 {
        seq!['-'] + decimal_seq((-n) as nat)
    } else {
        decimal_seq(n as nat)
    }
}

/// `count` zeros.
pub open spec fn zeros(count: int) -> Seq<char> {
    Seq::new(
        if count > 0 {
            count as nat
        } else {
            0
        },
        |i: int| '0',
    )
}

/// The decimal form of `n`, with zeros in front up to `width` characters.
pub open spec fn padded_seq(n: nat, width: nat) -> Seq<char> {
    zeros(width - decimal_seq(n).len()) + decimal_seq(n)
}

/// The digit for a value below ten.
fn digit(value: u8) -> (c: char)
    requires
        value < 10,
    ensures
        c == digit_char(value as nat),
{
    (48 + value) as char
}

/// The shortest decimal form of `n`.
pub fn decimal(n: u128) -> (out: String)
    ensures
        out@ == decimal_seq(n as nat),
    decreases n,
{
    if n < 10 {
        let mut out = String::new();
        out.push(digit(n as u8));
        assert(out@ =~= seq![digit_char(n as nat)]);
        out
    } else {
        let mut out = decimal(n / 10);
        out.push(digit((n % 10) as u8));
        out
    }
}

/// The decimal form of `n`.
pub fn decimal_signed(n: i64) -> (out: String)
    ensures
        out@ == decimal_int(n as int),
{
    if n < 0 {
        let mut out = String::new();
        out.push('-');
        out.append(decimal((-(n as i128)) as u128).as_str());
        assert(out@ =~= decimal_int(n as int));
        out
    } else {
        decimal(n as u128)
    }
}

/// The decimal form of `n`, with zeros in front up to three characters.
pub fn padded3(n: u128) -> (out: String)
    ensures
        out@ == padded_seq(n as nat, 3),
{
    let digits = decimal(n);
    let mut out = String::new();
    if n < 100 {
        out.push('0');
    }
    if n < 10 {
        out.push('0');
    }
    out.append(digits.as_str());
    proof {
        lemma_decimal_len(n as nat);
        assert(out@ =~= padded_seq(n as nat, 3));
    }
    out
}

/// How many digits the numbers below a thousand have.
proof fn lemma_decimal_len(n: nat)
    ensures
        decimal_seq(n).len() >= 1,
        n < 10 <==> decimal_seq(n).len() == 1,
        10 <= n < 100 <==> decimal_seq(n).len() == 2,
        100 <= n ==> decimal_seq(n).len() >= 3,
    decreases n,
{
    if n >= 10 {
        lemma_decimal_len(n / 10);
    }
}

// ---------------------------------------------------------------------------
// Reading

/// The value of a digit.
pub open spec fn digit_value(c: char) -> nat {
    (c as nat - 48) as nat
}

/// The value of a sequence of digits.
pub open spec fn digits_value(s: Seq<char>) -> nat
    decreases s.len(),
{
    if s.len() == 0 {
        0
    } else {
        digits_value(s.drop_last()) * 10 + digit_value(s.last())
    }
}

pub open spec fn all_digits(s: Seq<char>) -> bool {
    forall|i: int| 0 <= i < s.len() ==> text::is_digit(#[trigger] s[i])
}

/// The number that `s` writes with at least one digit, if it is no more than `max`.
pub open spec fn digits_number(s: Seq<char>, max: nat) -> Option<nat> {
    if s.len() > 0 && all_digits(s) && digits_value(s) <= max {
        Some(digits_value(s))
    } else {
        None
    }
}

/// The unsigned number up to `max` that `s` writes: digits, with a plus sign in front or none.
pub open spec fn parse_unsigned(s: Seq<char>, max: nat) -> Option<nat> {
    digits_number(
        if s.len() > 0 && s[0] == '+' {
            s.skip(1)
        } else {
            s
        },
        max,
    )
}

/// The signed number that `s` writes: digits, with a sign in front or none.
pub open spec fn parse_signed(s: Seq<char>, min: int, max: int) -> Option<int> {
    if s.len() > 0 && s[0] == '-' {
        match digits_number(s.skip(1), (-min) as nat) {
            Some(value) => Some(-(value as int)),
            None => None,
        }
    } else {
        match parse_unsigned(s, max as nat) {
            Some(value) => Some(value as int),
            None => None,
        }
    }
}

/// A longer run of digits is worth at least as much.
pub proof fn lemma_value_monotone(s: Seq<char>, k: int)
    requires
        0 <= k <= s.len(),
        all_digits(s),
    ensures
        digits_value(s.take(k)) <= digits_value(s),
    decreases s.len(),
{
    if k == s.len() {
        assert(s.take(k) =~= s);
    } else {
        lemma_value_monotone(s.drop_last(), k);
        assert(s.drop_last().take(k) =~= s.take(k));
    }
}

/// The number that the characters from `from` on write in digits, if it is no more than `max`.
fn parse_digits(all: &[char], from: usize, max: u64) -> (out: Option<u64>)
    requires
        from <= all@.len(),
    ensures
        match out {
            Some(value) => digits_number(all@.skip(from as int), max as nat) == Some(value as nat),
            None => digits_number(all@.skip(from as int), max as nat) is None,
        },
{
    let ghost s = all@.skip(from as int);
    if from == all.len() {
        return None;
    }
    let mut value: u64 = 0;
    let mut i: usize = from;
    assert(s.take(0) =~= Seq::empty());
    while i < all.len()
        invariant
            from <= i <= all@.len(),
            s == all@.skip(from as int),
            value <= max,
            value == digits_value(s.take(i - from)),
            forall|k: int| 0 <= k < i - from ==> text::is_digit(#[trigger] s[k]),
        decreases all@.len() - i,
    {
        let c = all[i];
        assert(s[i - from] == c);
        if c < '0' || '9' < c {
            return None;
        }
        let next: u128 = (value as u128) * 10 + ((c as u32 - 48) as u128);
        proof {
            assert(s.take(i - from + 1).drop_last() =~= s.take(i - from));
            assert(s.take(i - from + 1).last() == c);
            assert(next == digits_value(s.take(i - from + 1)));
        }
        if next > max as u128 {
            proof {
                if all_digits(s) {
                    lemma_value_monotone(s, i - from + 1);
                }
            }
            return None;
        }
        value = next as u64;
        i = i + 1;
    }
    assert(s.take(s.len() as int) =~= s);
    Some(value)
}

/// The unsigned number up to `max` that `text` writes.
fn parse_up_to(text: &str, max: u64) -> (out: Option<u64>)
    ensures
        match out {
            Some(value) => parse_unsigned(text@, max as nat) == Some(value as nat),
            None => parse_unsigned(text@, max as nat) is None,
        },
{
    let all = chars(text);
    assert(text@.skip(0) =~= text@);
    if all.len() > 0 && all[0] == '+' {
        parse_digits(&all, 1, max)
    } else {
        parse_digits(&all, 0, max)
    }
}

/// The `u64` that `text` writes in decimal.
pub fn parse_u64(text: &str) -> (out: Option<u64>)
    ensures
        match out {
            Some(value) => parse_unsigned(text@, u64::MAX as nat) == Some(value as nat),
            None => parse_unsigned(text@, u64::MAX as nat) is None,
        },
{
    parse_up_to(text, u64::MAX)
}

/// The `u32` that `text` writes in decimal.
pub fn parse_u32(text: &str) -> (out: Option<u32>)
    ensures
        match out {
            Some(value) => parse_unsigned(text@, u32::MAX as nat) == Some(value as nat),
            None => parse_unsigned(text@, u32::MAX as nat) is None,
        },
{
    match parse_up_to(text, u32::MAX as u64) {
        Some(value) => Some(value as u32),
        None => None,
    }
}

/// The `usize` that `text` writes in decimal.
pub fn parse_usize(text: &str) -> (out: Option<usize>)
    ensures
        match out {
            Some(value) => parse_unsigned(text@, usize::MAX as nat) == Some(value as nat),
            None => parse_unsigned(text@, usize::MAX as nat) is None,
        },
{
    match parse_up_to(text, usize::MAX as u64) {
        Some(value) => Some(value as usize),
        None => None,
    }
}

/// The `i32` that `text` writes in decimal.
pub fn parse_i32(text: &str) -> (out: Option<i32>)
    ensures
        match out {
            Some(value) => parse_signed(text@, i32::MIN as int, i32::MAX as int) == Some(
                value as int,
            ),
            None => parse_signed(text@, i32::MIN as int, i32::MAX as int) is None,
        },
{
    let all = chars(text);
    if all.len() > 0 && all[0] == '-' {
        match parse_digits(&all, 1, 2147483648) {
            Some(value) => Some((-(value as i64)) as i32),
            None => None,
        }
    } else {
        match parse_up_to(text, 2147483647) {
            Some(value) => Some(value as i32),
            None => None,
        }
    }
}

// ---------------------------------------------------------------------------
// Reading what was written

/// The decimal form of a number consists of digits and has the value of the number.
pub proof fn decimal_form_reads_back(n: nat)
    ensures
        decimal_seq(n).len() > 0,
        all_digits(decimal_seq(n)),
        digits_value(decimal_seq(n)) == n,
    decreases n,
{
    if n < 10 {
        let s = decimal_seq(n);
        assert(s.drop_last() =~= Seq::empty());
        assert(digits_value(s.drop_last()) == 0);
        assert(digit_value(digit_char(n)) == n);
    } else {
        decimal_form_reads_back(n / 10);
        let s = decimal_seq(n);
        assert(s.drop_last() =~= decimal_seq(n / 10));
        assert(digit_value(digit_char(n % 10)) == n % 10);
    }
}

/// Reading the decimal form of a number that is in range gives the number back.
pub proof fn parse_of_decimal(n: nat, max: nat)
    requires
        n <= max,
    ensures
        parse_unsigned(decimal_seq(n), max) == Some(n),
{
    decimal_form_reads_back(n);
    assert(text::is_digit(decimal_seq(n)[0]));
}

/// Numbers with the same decimal form are equal.
pub proof fn decimal_form_is_unique(a: nat, b: nat)
    requires
        decimal_seq(a) == decimal_seq(b),
    ensures
        a == b,
{
    decimal_form_reads_back(a);
    decimal_form_reads_back(b);
}

/// Numbers with the same padded form are equal.
pub proof fn padded_form_is_unique(a: nat, b: nat, width: nat)
    requires
        padded_seq(a, width) == padded_seq(b, width),
    ensures
        a == b,
{
    lemma_padded_value(a, width);
    lemma_padded_value(b, width);
}

/// A padded form consists of digits and has the value of the number.
pub proof fn lemma_padded_value(n: nat, width: nat)
    ensures
        all_digits(padded_seq(n, width)),
        digits_value(padded_seq(n, width)) == n,
{
    decimal_form_reads_back(n);
    lemma_zeros_value(width - decimal_seq(n).len(), decimal_seq(n));
    let s = padded_seq(n, width);
    let front = zeros(width - decimal_seq(n).len());
    assert forall|i: int| 0 <= i < s.len() implies text::is_digit(#[trigger] s[i]) by {
        if i >= front.len() {
            assert(s[i] == decimal_seq(n)[i - front.len()]);
        }
    }
}

proof fn lemma_zeros_value(count: int, s: Seq<char>)
    ensures
        digits_value(zeros(count) + s) == digits_value(s),
    decreases s.len(), zeros(count).len(),
{
    let all = zeros(count) + s;
    if s.len() > 0 {
        lemma_zeros_value(count, s.drop_last());
        assert(all.drop_last() =~= zeros(count) + s.drop_last());
    } else if zeros(count).len() > 0 {
        lemma_zeros_value(count - 1, s);
        assert(all.drop_last() =~= zeros(count - 1) + s);
    } else {
        assert(all =~= s);
    }
}

} // verus!
