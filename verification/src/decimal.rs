use crate::errors::Error;
use crate::text::{chars_of, first_index, lemma_first_index, lemma_first_index_is};
use vstd::prelude::*;
use vstd::string::StringExecFns;

verus! {

/// The number of fraction digits that a fixed-point amount carries.
pub const DECIMAL_PLACES: usize = 8;

/// One whole unit as a fixed-point amount: `10^DECIMAL_PLACES`.
pub const DECIMAL_SCALE: i128 = 100_000_000;

pub open spec fn is_digit(c: char) -> bool {
    '0' <= c <= '9'
}

pub open spec fn digit_value(c: char) -> nat {
    (c as int - '0' as int) as nat
}

pub open spec fn all_digits(text: Seq<char>) -> bool {
    forall|i: int| 0 <= i < text.len() ==> is_digit(#[trigger] text[i])
}

/// The number that a string of decimal digits writes; zero for no digits.
pub open spec fn digits_value(text: Seq<char>) -> nat
    decreases text.len(),
{
    if text.len() == 0 {
        0
    } else {
        10 * digits_value(text.drop_last()) + digit_value(text.last())
    }
}

pub open spec fn pow10(exponent: nat) -> nat
    decreases exponent,
{
    if exponent == 0 {
        1
    } else {
        10 * pow10((exponent - 1) as nat)
    }
}

/// The place of the first `.` in a text, or the text's length where it has
/// none.
pub open spec fn dot_index(text: Seq<char>) -> int {
    first_index(text, '.')
}

/// Whether a text starts with a sign.
pub open spec fn has_sign(text: Seq<char>) -> bool {
    text.len() > 0 && (text[0] == '-' || text[0] == '+')
}

/// The digits before the first `.` of an unsigned decimal.
pub open spec fn whole_digits(body: Seq<char>) -> Seq<char> {
    body.take(dot_index(body))
}

/// The digits after the first `.` of an unsigned decimal; none without a `.`.
pub open spec fn fraction_digits(body: Seq<char>) -> Seq<char> {
    if dot_index(body) < body.len() {
        body.skip(dot_index(body) + 1)
    } else {
        Seq::empty()
    }
}

/// An unsigned decimal is digits, then optionally a `.` and digits: at least
/// one digit in all, and no more fraction digits than an amount carries.
pub open spec fn is_unsigned_decimal(body: Seq<char>) -> bool {
    &&& all_digits(whole_digits(body))
    &&& all_digits(fraction_digits(body))
    &&& whole_digits(body).len() + fraction_digits(body).len() >= 1
    &&& fraction_digits(body).len() <= DECIMAL_PLACES
}

/// The amount that an unsigned decimal writes, in units of
/// `10^-DECIMAL_PLACES`: its digits read as one number, scaled by the fraction
/// digits that it leaves out.
pub open spec fn unsigned_units(body: Seq<char>) -> nat {
    digits_value(whole_digits(body) + fraction_digits(body)) * pow10(
        (DECIMAL_PLACES - fraction_digits(body).len()) as nat,
    )
}

/// The amount that a decimal text writes, in units of `10^-DECIMAL_PLACES`, or
/// `None` where the text is no decimal. A decimal is an optional sign followed
/// by an unsigned decimal.
pub open spec fn decimal_units(text: Seq<char>) -> Option<int> {
    let body = if has_sign(text) {
        text.skip(1)
    } else {
        text
    };
    if !is_unsigned_decimal(body) {
        None
    } else if has_sign(text) && text[0] == '-' {
        Some(-(unsigned_units(body) as int))
    } else {
        Some(unsigned_units(body) as int)
    }
}

/// The amount that a text writes, where it writes one that an `i128` holds.
pub open spec fn amount_field(text: Seq<char>) -> Option<i128> {
    match decimal_units(text) {
        Some(amount) if i128::MIN <= amount <= i128::MAX => Some(amount as i128),
        _ => None,
    }
}

/// The price that a text writes, where it writes one that an `i64` holds.
pub open spec fn price_field(text: Seq<char>) -> Option<i64> {
    match decimal_units(text) {
        Some(amount) if i64::MIN <= amount <= i64::MAX => Some(amount as i64),
        _ => None,
    }
}

pub proof fn lemma_dot_index(text: Seq<char>)
    ensures
        0 <= dot_index(text) <= text.len(),
        forall|i: int| 0 <= i < dot_index(text) ==> text[i] != '.',
        dot_index(text) < text.len() ==> text[dot_index(text)] == '.',
{
    lemma_first_index(text, '.');
}

/// The first `.` is where a `.` stands with none before it.
pub proof fn lemma_dot_index_is(text: Seq<char>, at: int)
    requires
        0 <= at <= text.len(),
        forall|i: int| 0 <= i < at ==> text[i] != '.',
        at < text.len() ==> text[at] == '.',
    ensures
        dot_index(text) == at,
{
    lemma_first_index_is(text, '.', at);
}

pub proof fn lemma_digits_value_push(text: Seq<char>, c: char)
    ensures
        digits_value(text.push(c)) == 10 * digits_value(text) + digit_value(c),
{
    assert(text.push(c).drop_last() == text);
}

/// Reading more digits never gives a smaller number.
pub proof fn lemma_digits_value_prefix(text: Seq<char>, len: int)
    requires
        0 <= len <= text.len(),
    ensures
        digits_value(text.take(len)) <= digits_value(text),
    decreases text.len(),
{
    if len < text.len() {
        lemma_digits_value_prefix(text.drop_last(), len);
        assert(text.drop_last().take(len) == text.take(len));
    } else {
        assert(text.take(len) == text);
    }
}

pub proof fn lemma_pow10_positive(exponent: nat)
    ensures
        pow10(exponent) >= 1,
    decreases exponent,
{
    if exponent > 0 {
        lemma_pow10_positive((exponent - 1) as nat);
    }
}

/// The digit that a character writes, if it writes one.
pub fn digit_of(c: char) -> (digit: Option<u8>)
    ensures
        digit is Some <==> is_digit(c),
        digit matches Some(value) ==> value == digit_value(c),
{
    let code = c as u32;
    if 48 <= code && code <= 57 {
        Some((code - 48) as u8)
    } else {
        None
    }
}

pub proof fn lemma_pow10_monotone(small: nat, large: nat)
    requires
        small <= large,
    ensures
        pow10(small) <= pow10(large),
    decreases large,
{
    if small < large {
        lemma_pow10_monotone(small, (large - 1) as nat);
    }
}

/// A decimal's amount is at least the number that any leading part of its
/// digits writes.
proof fn lemma_units_at_least(body: Seq<char>, len: int)
    requires
        0 <= len <= (whole_digits(body) + fraction_digits(body)).len(),
        fraction_digits(body).len() <= DECIMAL_PLACES,
    ensures
        unsigned_units(body) >= digits_value(
            (whole_digits(body) + fraction_digits(body)).take(len),
        ),
{
    let digits = whole_digits(body) + fraction_digits(body);
    let scale = pow10((DECIMAL_PLACES - fraction_digits(body).len()) as nat);
    lemma_digits_value_prefix(digits, len);
    lemma_pow10_positive((DECIMAL_PLACES - fraction_digits(body).len()) as nat);
    assert(digits_value(digits) * scale >= digits_value(digits)) by (nonlinear_arith)
        requires
            scale >= 1,
    ;
}

/// Reads the unsigned decimal that stands in `chars` from `start` up to `end`.
/// `None` where that text is no unsigned decimal, or writes an amount too
/// large for the result.
pub fn parse_unsigned(chars: &[char], start: usize, end: usize) -> (units: Option<u128>)
    requires
        start <= end <= chars@.len(),
    ensures
        units is Some <==> is_unsigned_decimal(chars@.subrange(start as int, end as int))
            && unsigned_units(chars@.subrange(start as int, end as int)) <= u128::MAX,
        units matches Some(value) ==> value == unsigned_units(
            chars@.subrange(start as int, end as int),
        ),
{
    let ghost body = chars@.subrange(start as int, end as int);
    let ghost mut seen: Seq<char> = Seq::empty();
    let mut acc: u128 = 0;
    let mut seen_dot = false;
    let mut fraction_len: usize = 0;
    let mut digits: usize = 0;
    let mut i: usize = start;
    proof {
        lemma_dot_index(body);
    }
    while i < end
        invariant
            start <= i <= end <= chars@.len(),
            body == chars@.subrange(start as int, end as int),
            0 <= dot_index(body) <= body.len(),
            all_digits(seen),
            acc == digits_value(seen),
            seen.len() == digits,
            digits <= i - start,
            fraction_len <= DECIMAL_PLACES,
            !seen_dot ==> seen == body.take(i - start) && fraction_len == 0,
            seen_dot ==> dot_index(body) < i - start && seen == body.take(dot_index(body))
                + body.subrange(dot_index(body) + 1, i - start) && fraction_len == i - start
                - dot_index(body) - 1,
        decreases end - i,
    {
        let c = chars[i];
        let ghost at = i - start;
        if c == '.' {
            if seen_dot {
                proof {
                    assert(fraction_digits(body)[at - dot_index(body) - 1] == c);
                }
                return None;
            }
            proof {
                assert forall|j: int| 0 <= j < at implies body[j] != '.' by {
                    assert(seen[j] == body[j]);
                }
                lemma_dot_index_is(body, at);
            }
            seen_dot = true;
        } else {
            match digit_of(c) {
                None => {
                    proof {
                        if seen_dot {
                            assert(fraction_digits(body)[at - dot_index(body) - 1] == c);
                        } else {
                            assert forall|j: int| 0 <= j <= at implies body[j] != '.' by {
                                if j < at {
                                    assert(seen[j] == body[j]);
                                }
                            }
                            lemma_dot_index(body);
                            assert(whole_digits(body)[at] == c);
                        }
                    }
                    return None;
                },
                Some(digit) => {
                    if seen_dot && fraction_len == DECIMAL_PLACES {
                        return None;
                    }
                    let ghost next = seen.push(c);
                    proof {
                        lemma_digits_value_push(seen, c);
                        if !seen_dot {
                            assert forall|j: int| 0 <= j <= at implies body[j] != '.' by {
                                assert(next[j] == body[j]);
                            }
                            lemma_dot_index(body);
                        }
                        if is_unsigned_decimal(body) {
                            let all = whole_digits(body) + fraction_digits(body);
                            assert(next == all.take(next.len() as int));
                            lemma_units_at_least(body, next.len() as int);
                        }
                    }
                    let grown = match acc.checked_mul(10) {
                        None => {
                            return None;
                        },
                        Some(tenfold) => tenfold.checked_add(digit as u128),
                    };
                    match grown {
                        None => {
                            return None;
                        },
                        Some(value) => {
                            acc = value;
                        },
                    }
                    proof {
                        seen = next;
                    }
                    digits = digits + 1;
                    if seen_dot {
                        fraction_len = fraction_len + 1;
                    }
                },
            }
        }
        i = i + 1;
    }
    proof {
        if !seen_dot {
            assert forall|j: int| 0 <= j < body.len() implies body[j] != '.' by {
                assert(seen[j] == body[j]);
            }
            lemma_dot_index_is(body, body.len() as int);
        }
        let whole = whole_digits(body);
        let fraction = fraction_digits(body);
        assert forall|j: int| 0 <= j < whole.len() implies is_digit(#[trigger] whole[j]) by {
            assert(seen[j] == whole[j]);
        }
        assert forall|j: int| 0 <= j < fraction.len() implies is_digit(
            #[trigger] fraction[j],
        ) by {
            assert(seen[whole.len() + j] == fraction[j]);
        }
    }
    if digits == 0 {
        return None;
    }
    assert(acc == digits_value(seen) * pow10(0)) by (nonlinear_arith)
        requires
            acc == digits_value(seen),
            pow10(0) == 1,
    ;
    let mut scaled: usize = fraction_len;
    while scaled < DECIMAL_PLACES
        invariant
            fraction_len <= scaled <= DECIMAL_PLACES,
            body == chars@.subrange(start as int, end as int),
            is_unsigned_decimal(body),
            fraction_len == fraction_digits(body).len(),
            seen == whole_digits(body) + fraction_digits(body),
            acc == digits_value(seen) * pow10((scaled - fraction_len) as nat),
        decreases DECIMAL_PLACES - scaled,
    {
        proof {
            let value = digits_value(seen);
            let done = pow10((scaled - fraction_len) as nat);
            let step = pow10((scaled + 1 - fraction_len) as nat);
            let full = pow10((DECIMAL_PLACES - fraction_len) as nat);
            lemma_pow10_monotone((scaled + 1 - fraction_len) as nat, (DECIMAL_PLACES - fraction_len) as nat);
            assert(value * step == (value * done) * 10) by (nonlinear_arith)
                requires
                    step == 10 * done,
            ;
            assert(value * step <= value * full) by (nonlinear_arith)
                requires
                    step <= full,
            ;
        }
        match acc.checked_mul(10) {
            None => {
                return None;
            },
            Some(tenfold) => {
                acc = tenfold;
            },
        }
        scaled = scaled + 1;
    }
    Some(acc)
}

/// Reads the decimal that stands in `chars` from `start` up to `end`. `None`
/// where that text is no decimal, or writes an amount outside the result's
/// range.
pub fn parse_decimal_chars(chars: &[char], start: usize, end: usize) -> (units: Option<i128>)
    requires
        start <= end <= chars@.len(),
    ensures
        units == amount_field(chars@.subrange(start as int, end as int)),
{
    let ghost text = chars@.subrange(start as int, end as int);
    let signed = start < end && (chars[start] == '-' || chars[start] == '+');
    let negative = start < end && chars[start] == '-';
    let from = if signed {
        start + 1
    } else {
        start
    };
    proof {
        if signed {
            assert(text.skip(1) == chars@.subrange(from as int, end as int));
        }
    }
    match parse_unsigned(chars, from, end) {
        None => None,
        Some(magnitude) => {
            if negative {
                if magnitude > 0x8000_0000_0000_0000_0000_0000_0000_0000 {
                    None
                } else if magnitude == 0x8000_0000_0000_0000_0000_0000_0000_0000 {
                    Some(i128::MIN)
                } else {
                    Some(-(magnitude as i128))
                }
            } else if magnitude > 0x7fff_ffff_ffff_ffff_ffff_ffff_ffff_ffff {
                None
            } else {
                Some(magnitude as i128)
            }
        },
    }
}

/// A text without the run of `c` at its start.
pub open spec fn trim_leading(text: Seq<char>, c: char) -> Seq<char>
    decreases text.len(),
{
    if text.len() > 0 && text[0] == c {
        trim_leading(text.skip(1), c)
    } else {
        text
    }
}

/// A text without the run of `c` at its end.
pub open spec fn trim_trailing(text: Seq<char>, c: char) -> Seq<char>
    decreases text.len(),
{
    if text.len() > 0 && text.last() == c {
        trim_trailing(text.drop_last(), c)
    } else {
        text
    }
}

/// A text without the runs of `c` at its two ends.
pub open spec fn trim_matches(text: Seq<char>, c: char) -> Seq<char> {
    trim_trailing(trim_leading(text, c), c)
}

/// Finds where a text stands once the runs of `c` at its two ends are taken
/// off.
pub fn trimmed_range(chars: &[char], c: char) -> (range: (usize, usize))
    ensures
        range.0 <= range.1 <= chars@.len(),
        chars@.subrange(range.0 as int, range.1 as int) == trim_matches(chars@, c),
{
    let mut start: usize = 0;
    let mut end: usize = chars.len();
    assert(chars@.subrange(0, chars@.len() as int) == chars@);
    while start < end && chars[start] == c
        invariant
            start <= end == chars@.len(),
            trim_leading(chars@.subrange(start as int, end as int), c) == trim_leading(chars@, c),
        decreases end - start,
    {
        assert(chars@.subrange(start as int, end as int).skip(1) == chars@.subrange(
            start + 1,
            end as int,
        ));
        start = start + 1;
    }
    let ghost led = chars@.subrange(start as int, end as int);
    while start < end && chars[end - 1] == c
        invariant
            start <= end <= chars@.len(),
            trim_trailing(chars@.subrange(start as int, end as int), c) == trim_trailing(led, c),
        decreases end - start,
    {
        assert(chars@.subrange(start as int, end as int).drop_last() == chars@.subrange(
            start as int,
            end - 1,
        ));
        end = end - 1;
    }
    (start, end)
}

/// Reads a decimal amount in units of `10^-DECIMAL_PLACES`.
///
/// The text is an optional sign, then digits with at most one `.` among them,
/// at least one digit, and at most `DECIMAL_PLACES` digits after the `.`.
/// Anything else, and an amount outside the result's range, is a parse error.
pub fn parse_decimal(text: &str) -> (outcome: Result<i128, Error>)
    ensures
        outcome is Ok <==> amount_field(text@) is Some,
        outcome matches Ok(value) ==> amount_field(text@) == Some(value),
        outcome matches Err(error) ==> error is Parse && error.message()
            == "Unable to parse decimal"@,
{
    let chars = chars_of(text);
    assert(chars@.subrange(0, chars@.len() as int) == text@);
    match parse_decimal_chars(chars.as_slice(), 0, chars.len()) {
        Some(value) => Ok(value),
        None => Err(Error::Parse("Unable to parse decimal".to_owned())),
    }
}

/// The price that a text writes once the quotes around it are taken off.
pub open spec fn price_units(text: Seq<char>) -> Option<i64> {
    price_field(trim_matches(text, '"'))
}

/// Reads the price that stands in `chars` from `start` up to `end`.
pub fn parse_price_chars(chars: &[char], start: usize, end: usize) -> (price: Option<i64>)
    requires
        start <= end <= chars@.len(),
    ensures
        price == price_field(chars@.subrange(start as int, end as int)),
{
    match parse_decimal_chars(chars, start, end) {
        Some(value) => {
            if value < -0x8000_0000_0000_0000 || value > 0x7fff_ffff_ffff_ffff {
                None
            } else {
                Some(value as i64)
            }
        },
        None => None,
    }
}

/// Reads a price in units of `10^-DECIMAL_PLACES`, with or without double
/// quotes around the number.
pub fn parse_price(text: &str) -> (outcome: Result<i64, Error>)
    ensures
        outcome is Ok <==> price_units(text@) is Some,
        outcome matches Ok(value) ==> price_units(text@) == Some(value),
        outcome matches Err(error) ==> error is Parse && error.message()
            == "Unable to parse price"@,
{
    let chars = chars_of(text);
    let (start, end) = trimmed_range(chars.as_slice(), '"');
    match parse_price_chars(chars.as_slice(), start, end) {
        Some(value) => Ok(value),
        None => Err(Error::Parse("Unable to parse price".to_owned())),
    }
}

/// The character that writes a digit.
pub open spec fn digit_char(digit: nat) -> char {
    if digit == 0 {
        '0'
    } else if digit == 1 {
        '1'
    } else if digit == 2 {
        '2'
    } else if digit == 3 {
        '3'
    } else if digit == 4 {
        '4'
    } else if digit == 5 {
        '5'
    } else if digit == 6 {
        '6'
    } else if digit == 7 {
        '7'
    } else if digit == 8 {
        '8'
    } else {
        '9'
    }
}

/// A number in decimal digits, without leading zeros; `0` for zero.
pub open spec fn natural_text(number: nat) -> Seq<char>
    decreases number,
{
    if number < 10 {
        seq![digit_char(number)]
    } else {
        natural_text(number / 10).push(digit_char(number % 10))
    }
}

/// The last `width` decimal digits of a number, with leading zeros.
pub open spec fn padded_text(number: nat, width: nat) -> Seq<char>
    decreases width,
{
    if width == 0 {
        Seq::empty()
    } else {
        padded_text(number / 10, (width - 1) as nat).push(digit_char(number % 10))
    }
}

/// An amount written as a decimal: a `-` for a negative amount, the whole
/// units, a `.`, and all `DECIMAL_PLACES` fraction digits.
pub open spec fn decimal_text(units: int) -> Seq<char> {
    let magnitude = if units < 0 {
        (-units) as nat
    } else {
        units as nat
    };
    let sign = if units < 0 {
        seq!['-']
    } else {
        Seq::empty()
    };
    sign + natural_text(magnitude / (DECIMAL_SCALE as nat)).push('.') + padded_text(
        magnitude % (DECIMAL_SCALE as nat),
        DECIMAL_PLACES as nat,
    )
}

fn digit_text(digit: u8) -> (text: &'static str)
    requires
        digit < 10,
    ensures
        text@ == seq![digit_char(digit as nat)],
{
    proof {
        reveal_strlit("0");
        reveal_strlit("1");
        reveal_strlit("2");
        reveal_strlit("3");
        reveal_strlit("4");
        reveal_strlit("5");
        reveal_strlit("6");
        reveal_strlit("7");
        reveal_strlit("8");
        reveal_strlit("9");
    }
    let text = if digit == 0 {
        "0"
    } else if digit == 1 {
        "1"
    } else if digit == 2 {
        "2"
    } else if digit == 3 {
        "3"
    } else if digit == 4 {
        "4"
    } else if digit == 5 {
        "5"
    } else if digit == 6 {
        "6"
    } else if digit == 7 {
        "7"
    } else if digit == 8 {
        "8"
    } else {
        "9"
    };
    text
}

/// Writes a number in decimal digits at the end of a text.
pub fn push_natural(out: &mut String, number: u128)
    ensures
        final(out)@ == old(out)@ + natural_text(number as nat),
    decreases number,
{
    if number >= 10 {
        push_natural(out, number / 10);
    }
    out.append(digit_text((number % 10) as u8));
}

/// Writes the last `width` decimal digits of a number at the end of a text.
pub fn push_padded(out: &mut String, number: u128, width: usize)
    ensures
        final(out)@ == old(out)@ + padded_text(number as nat, width as nat),
    decreases width,
{
    if width > 0 {
        push_padded(out, number / 10, width - 1);
        out.append(digit_text((number % 10) as u8));
    }
}

/// Writes a number in decimal digits.
pub fn format_natural(number: u128) -> (text: String)
    ensures
        text@ == natural_text(number as nat),
{
    let mut text = String::new();
    push_natural(&mut text, number);
    text
}

/// Writes an amount as a decimal with all its fraction digits.
pub fn format_decimal(units: i128) -> (text: String)
    ensures
        text@ == decimal_text(units as int),
{
    let magnitude: u128 = if units == i128::MIN {
        0x8000_0000_0000_0000_0000_0000_0000_0000
    } else if units < 0 {
        (-units) as u128
    } else {
        units as u128
    };
    let mut text = String::new();
    if units < 0 {
        proof {
            reveal_strlit("-");
        }
        text.append("-");
    }
    push_natural(&mut text, magnitude / 100_000_000);
    proof {
        reveal_strlit(".");
    }
    text.append(".");
    push_padded(&mut text, magnitude % 100_000_000, DECIMAL_PLACES);
    text
}

proof fn lemma_digit_char(digit: nat)
    requires
        digit < 10,
    ensures
        is_digit(digit_char(digit)),
        digit_value(digit_char(digit)) == digit,
{
}

proof fn lemma_natural_text(number: nat)
    ensures
        natural_text(number).len() >= 1,
        all_digits(natural_text(number)),
        digits_value(natural_text(number)) == number,
    decreases number,
{
    lemma_digit_char(number % 10);
    if number < 10 {
        let text = natural_text(number);
        assert(digits_value(text.drop_last()) == 0);
    } else {
        lemma_natural_text(number / 10);
        lemma_digits_value_push(natural_text(number / 10), digit_char(number % 10));
    }
}

proof fn lemma_padded_text(number: nat, width: nat)
    ensures
        padded_text(number, width).len() == width,
        all_digits(padded_text(number, width)),
        digits_value(padded_text(number, width)) == number % pow10(width),
    decreases width,
{
    if width > 0 {
        let rest = (width - 1) as nat;
        lemma_digit_char(number % 10);
        lemma_padded_text(number / 10, rest);
        lemma_digits_value_push(padded_text(number / 10, rest), digit_char(number % 10));
        lemma_pow10_positive(rest);
        vstd::arithmetic::div_mod::lemma_breakdown(number as int, 10, pow10(rest) as int);
    }
}

/// Two strings of digits read as one number: the first, shifted by the length
/// of the second, plus the second.
pub proof fn lemma_digits_value_concat(high: Seq<char>, low: Seq<char>)
    ensures
        digits_value(high + low) == digits_value(high) * pow10(low.len()) + digits_value(low),
    decreases low.len(),
{
    if low.len() == 0 {
        assert(digits_value(high) * 1 == digits_value(high));
    } else {
        let shorter = low.drop_last();
        let shift = pow10(shorter.len());
        lemma_digits_value_concat(high, shorter);
        assert((high + low).drop_last() == high + shorter);
        assert(10 * (digits_value(high) * shift + digits_value(shorter)) == digits_value(high) * (10
            * shift) + 10 * digits_value(shorter)) by (nonlinear_arith);
    }
}

/// What `format_decimal` writes, `parse_decimal` reads back as the same
/// amount.
pub proof fn lemma_decimal_text_round_trip(units: int)
    ensures
        decimal_units(decimal_text(units)) == Some(units),
{
    let magnitude = if units < 0 {
        (-units) as nat
    } else {
        units as nat
    };
    let scale = DECIMAL_SCALE as nat;
    let whole = natural_text(magnitude / scale);
    let fraction = padded_text(magnitude % scale, DECIMAL_PLACES as nat);
    let body = whole.push('.') + fraction;
    let text = decimal_text(units);
    lemma_natural_text(magnitude / scale);
    lemma_padded_text(magnitude % scale, DECIMAL_PLACES as nat);
    assert(pow10(8) == scale) by {
        reveal_with_fuel(pow10, 9);
    }
    assert(pow10(0) == 1);
    assert(is_digit(whole[0]));
    assert(body[0] == whole[0]);
    if units < 0 {
        assert(text == seq!['-'] + whole.push('.') + fraction);
        assert(text[0] == '-');
        assert(text.skip(1) == body);
    } else {
        assert(text == Seq::<char>::empty() + whole.push('.') + fraction);
        assert(text == body);
    }
    assert forall|i: int| 0 <= i < whole.len() implies body[i] != '.' by {
        assert(body[i] == whole[i]);
    }
    assert(body[whole.len() as int] == '.');
    lemma_dot_index_is(body, whole.len() as int);
    assert(whole_digits(body) == whole);
    assert(fraction_digits(body) == fraction);
    lemma_digits_value_concat(whole, fraction);
    assert(magnitude == (magnitude / scale) * scale + magnitude % scale) by (nonlinear_arith)
        requires
            scale > 0,
    ;
    assert((magnitude % scale) % scale == magnitude % scale) by (nonlinear_arith)
        requires
            scale > 0,
    ;
    assert(digits_value(whole + fraction) == magnitude);
    assert(is_unsigned_decimal(body));
    assert(magnitude * 1 == magnitude);
    assert(unsigned_units(body) == magnitude);
    assert(!has_sign(body));
}

/// The whole number that a text writes, or `None` where the text is none: an
/// optional sign, then one digit or more.
pub open spec fn integer_value(text: Seq<char>) -> Option<int> {
    let body = if has_sign(text) {
        text.skip(1)
    } else {
        text
    };
    if body.len() == 0 || !all_digits(body) {
        None
    } else if has_sign(text) && text[0] == '-' {
        Some(-(digits_value(body) as int))
    } else {
        Some(digits_value(body) as int)
    }
}

/// The count that a text writes, or `None` where the text is none: an
/// optional `+`, then one digit or more.
pub open spec fn natural_value(text: Seq<char>) -> Option<nat> {
    let body = if text.len() > 0 && text[0] == '+' {
        text.skip(1)
    } else {
        text
    };
    if body.len() == 0 || !all_digits(body) {
        None
    } else {
        Some(digits_value(body))
    }
}

/// The whole number that a text writes, where it writes one that an `i64`
/// holds.
pub open spec fn integer_field(text: Seq<char>) -> Option<i64> {
    match integer_value(text) {
        Some(value) if i64::MIN <= value <= i64::MAX => Some(value as i64),
        _ => None,
    }
}

/// The count that a text writes, where it writes one that a `u64` holds.
pub open spec fn count_field(text: Seq<char>) -> Option<u64> {
    match natural_value(text) {
        Some(value) if value <= u64::MAX => Some(value as u64),
        _ => None,
    }
}

/// Reads the digits that stand in `chars` from `start` up to `end`. `None`
/// where there is none, where another character stands among them, or where
/// the number is too large for the result.
pub fn parse_digits(chars: &[char], start: usize, end: usize) -> (number: Option<u128>)
    requires
        start <= end <= chars@.len(),
    ensures
        number is Some <==> start < end && all_digits(chars@.subrange(start as int, end as int))
            && digits_value(chars@.subrange(start as int, end as int)) <= u128::MAX,
        number matches Some(value) ==> value == digits_value(
            chars@.subrange(start as int, end as int),
        ),
{
    let ghost body = chars@.subrange(start as int, end as int);
    if start == end {
        return None;
    }
    let mut acc: u128 = 0;
    let mut i: usize = start;
    while i < end
        invariant
            start <= i <= end <= chars@.len(),
            body == chars@.subrange(start as int, end as int),
            all_digits(body.take(i - start)),
            acc == digits_value(body.take(i - start)),
        decreases end - i,
    {
        let c = chars[i];
        assert(body[i - start] == c);
        match digit_of(c) {
            None => {
                return None;
            },
            Some(digit) => {
                proof {
                    let next = body.take(i - start + 1);
                    assert(next == body.take(i - start).push(c));
                    lemma_digits_value_push(body.take(i - start), c);
                    lemma_digits_value_prefix(body, i - start + 1);
                }
                let grown = match acc.checked_mul(10) {
                    None => {
                        return None;
                    },
                    Some(tenfold) => tenfold.checked_add(digit as u128),
                };
                match grown {
                    None => {
                        return None;
                    },
                    Some(value) => {
                        acc = value;
                    },
                }
            },
        }
        i = i + 1;
    }
    assert(body.take(body.len() as int) == body);
    Some(acc)
}

/// Reads the whole number that stands in `chars` from `start` up to `end`.
pub fn parse_i64_chars(chars: &[char], start: usize, end: usize) -> (number: Option<i64>)
    requires
        start <= end <= chars@.len(),
    ensures
        number == integer_field(chars@.subrange(start as int, end as int)),
{
    let ghost text = chars@.subrange(start as int, end as int);
    let signed = start < end && (chars[start] == '-' || chars[start] == '+');
    let negative = start < end && chars[start] == '-';
    let from = if signed {
        start + 1
    } else {
        start
    };
    proof {
        if signed {
            assert(text.skip(1) == chars@.subrange(from as int, end as int));
        }
    }
    match parse_digits(chars, from, end) {
        None => None,
        Some(magnitude) => {
            if negative {
                if magnitude > 0x8000_0000_0000_0000 {
                    None
                } else if magnitude == 0x8000_0000_0000_0000 {
                    Some(i64::MIN)
                } else {
                    Some(-(magnitude as i64))
                }
            } else if magnitude > 0x7fff_ffff_ffff_ffff {
                None
            } else {
                Some(magnitude as i64)
            }
        },
    }
}

/// Reads the count that stands in `chars` from `start` up to `end`.
pub fn parse_u64_chars(chars: &[char], start: usize, end: usize) -> (number: Option<u64>)
    requires
        start <= end <= chars@.len(),
    ensures
        number == count_field(chars@.subrange(start as int, end as int)),
{
    let ghost text = chars@.subrange(start as int, end as int);
    let signed = start < end && chars[start] == '+';
    let from = if signed {
        start + 1
    } else {
        start
    };
    proof {
        if signed {
            assert(text.skip(1) == chars@.subrange(from as int, end as int));
        }
    }
    match parse_digits(chars, from, end) {
        None => None,
        Some(magnitude) => {
            if magnitude > 0xffff_ffff_ffff_ffff {
                None
            } else {
                Some(magnitude as u64)
            }
        },
    }
}

} // verus!
