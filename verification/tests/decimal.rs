use kline_trader::decimal::{
    digit_of, format_decimal, format_natural, parse_decimal, parse_decimal_chars, parse_digits,
    parse_i64_chars, parse_price, parse_price_chars, parse_u64_chars, parse_unsigned,
    trimmed_range, DECIMAL_PLACES, DECIMAL_SCALE,
};
use kline_trader::errors::Error;
use kline_trader::text::{chars_of, split_ranges};

fn chars(text: &str) -> Vec<char> {
    text.chars().collect()
}

fn unsigned(text: &str) -> Option<u128> {
    let all = chars(text);
    parse_unsigned(&all, 0, all.len())
}

fn whole(text: &str) -> Option<i64> {
    let all = chars(text);
    parse_i64_chars(&all, 0, all.len())
}

fn count(text: &str) -> Option<u64> {
    let all = chars(text);
    parse_u64_chars(&all, 0, all.len())
}

#[test]
fn scale_is_ten_to_the_places() {
    assert_eq!(DECIMAL_PLACES, 8);
    assert_eq!(DECIMAL_SCALE, 10i128.pow(8));
}

#[test]
fn parse_decimal_reads_whole_and_fraction() {
    assert_eq!(parse_decimal("42000.12000000").unwrap(), 4_200_012_000_000);
    assert_eq!(parse_decimal("1").unwrap(), 100_000_000);
    assert_eq!(parse_decimal("1.5").unwrap(), 150_000_000);
    assert_eq!(parse_decimal("0.00000001").unwrap(), 1);
    assert_eq!(parse_decimal("0").unwrap(), 0);
    assert_eq!(parse_decimal("007.50").unwrap(), 750_000_000);
}

#[test]
fn parse_decimal_reads_signs() {
    assert_eq!(parse_decimal("-1.5").unwrap(), -150_000_000);
    assert_eq!(parse_decimal("+1.5").unwrap(), 150_000_000);
    assert_eq!(parse_decimal("-0").unwrap(), 0);
}

#[test]
fn parse_decimal_takes_a_dot_at_either_end() {
    assert_eq!(parse_decimal("1.").unwrap(), 100_000_000);
    assert_eq!(parse_decimal(".5").unwrap(), 50_000_000);
    assert_eq!(parse_decimal("-.25").unwrap(), -25_000_000);
}

#[test]
fn parse_decimal_refuses_what_is_no_decimal() {
    for text in ["", ".", "-", "+", "-.", "1.2.3", "1..2", "abc", "1e5", "1,5", " 1", "1 ", "--1",
        "+-1", "1-", "NaN", "inf", "0x10", "1_000", "\"1\"", "١"]
    {
        assert!(matches!(parse_decimal(text), Err(Error::Parse(_))), "{text:?}");
    }
}

#[test]
fn parse_decimal_refuses_a_ninth_fraction_digit() {
    assert_eq!(parse_decimal("0.12345678").unwrap(), 12_345_678);
    assert!(parse_decimal("0.123456789").is_err());
    assert!(parse_decimal("0.000000000").is_err());
}

#[test]
fn parse_decimal_holds_the_whole_range_and_no_more() {
    let max = "1701411834604692317316873037158.84105727";
    assert_eq!(parse_decimal(max).unwrap(), i128::MAX);
    assert!(parse_decimal("1701411834604692317316873037158.84105728").is_err());
    let min = "-1701411834604692317316873037158.84105728";
    assert_eq!(parse_decimal(min).unwrap(), i128::MIN);
    assert!(parse_decimal("-1701411834604692317316873037158.84105729").is_err());
    assert!(parse_decimal("99999999999999999999999999999999999999999999").is_err());
    // the digits fit, the scaling by the missing fraction digits does not
    assert!(parse_decimal("9999999999999999999999999999999").is_err());
    // leading zeros do not count against the range
    assert_eq!(
        parse_decimal("0000000000000000000000000000000000000000000001").unwrap(),
        100_000_000
    );
}

#[test]
fn parse_unsigned_reads_a_range_of_the_text() {
    let all = chars("ab12.5cd");
    assert_eq!(parse_unsigned(&all, 2, 6), Some(1_250_000_000));
    assert_eq!(parse_unsigned(&all, 2, 4), Some(1_200_000_000));
    assert_eq!(parse_unsigned(&all, 1, 6), None);
    assert_eq!(parse_unsigned(&all, 3, 3), None);
    assert_eq!(unsigned("-1"), None);
    assert_eq!(unsigned("3402823669209384634633746074317.68211455"), Some(u128::MAX));
    assert_eq!(unsigned("3402823669209384634633746074317.68211456"), None);
}

#[test]
fn parse_decimal_chars_agrees_with_parse_decimal() {
    let all = chars("x-2.5y");
    assert_eq!(parse_decimal_chars(&all, 1, 5), Some(-250_000_000));
    assert_eq!(parse_decimal_chars(&all, 0, 5), None);
    assert_eq!(parse_decimal_chars(&all, 2, 2), None);
}

#[test]
fn parse_price_takes_quotes_off() {
    assert_eq!(parse_price("\"42000.12\"").unwrap(), 4_200_012_000_000);
    assert_eq!(parse_price("42000.12").unwrap(), 4_200_012_000_000);
    assert_eq!(parse_price("\"\"\"7\"").unwrap(), 700_000_000);
    assert!(parse_price("\"\"").is_err());
    assert!(parse_price("\"4\"2\"").is_err());
}

#[test]
fn parse_price_keeps_to_the_price_range() {
    assert_eq!(parse_price("92233720368.54775807").unwrap(), i64::MAX);
    assert!(matches!(parse_price("92233720368.54775808"), Err(Error::Parse(_))));
    assert_eq!(parse_price("-92233720368.54775808").unwrap(), i64::MIN);
    assert!(parse_price("-92233720368.54775809").is_err());
    let all = chars("92233720368.54775808");
    assert_eq!(parse_price_chars(&all, 0, all.len()), None);
    assert_eq!(parse_price_chars(&all, 0, 11), Some(9_223_372_036_800_000_000));
}

#[test]
fn trimmed_range_takes_runs_off_both_ends() {
    assert_eq!(trimmed_range(&chars("\"\"ab\"c\"\"\""), '"'), (2, 6));
    assert_eq!(trimmed_range(&chars("abc"), '"'), (0, 3));
    assert_eq!(trimmed_range(&chars(""), '"'), (0, 0));
    let (start, end) = trimmed_range(&chars("\"\"\""), '"');
    assert_eq!(start, end);
}

#[test]
fn format_decimal_writes_all_fraction_digits() {
    assert_eq!(format_decimal(4_200_012_000_000), "42000.12000000");
    assert_eq!(format_decimal(0), "0.00000000");
    assert_eq!(format_decimal(1), "0.00000001");
    assert_eq!(format_decimal(-1), "-0.00000001");
    assert_eq!(format_decimal(-150_000_000), "-1.50000000");
    assert_eq!(format_decimal(i128::MAX), "1701411834604692317316873037158.84105727");
    assert_eq!(format_decimal(i128::MIN), "-1701411834604692317316873037158.84105728");
}

#[test]
fn format_natural_writes_no_leading_zero() {
    assert_eq!(format_natural(0), "0");
    assert_eq!(format_natural(7), "7");
    assert_eq!(format_natural(10), "10");
    assert_eq!(format_natural(1_203_000), "1203000");
    assert_eq!(format_natural(u128::MAX), "340282366920938463463374607431768211455");
}

#[test]
fn what_is_formatted_parses_back() {
    for units in [0, 1, -1, 99_999_999, 100_000_000, -100_000_001, 4_200_012_000_000,
        i64::MAX as i128, i64::MIN as i128, i128::MAX, i128::MIN]
    {
        assert_eq!(parse_decimal(&format_decimal(units)).unwrap(), units);
    }
}

#[test]
fn digit_of_knows_the_ten_digits() {
    assert_eq!(digit_of('0'), Some(0));
    assert_eq!(digit_of('9'), Some(9));
    assert_eq!(digit_of('5'), Some(5));
    assert_eq!(digit_of('/'), None);
    assert_eq!(digit_of(':'), None);
    assert_eq!(digit_of('a'), None);
    assert_eq!(digit_of('٣'), None);
}

#[test]
fn parse_digits_reads_plain_digits() {
    let all = chars("0123x");
    assert_eq!(parse_digits(&all, 0, 4), Some(123));
    assert_eq!(parse_digits(&all, 0, 5), None);
    assert_eq!(parse_digits(&all, 2, 2), None);
    let top = chars("340282366920938463463374607431768211455");
    assert_eq!(parse_digits(&top, 0, top.len()), Some(u128::MAX));
    let over = chars("340282366920938463463374607431768211456");
    assert_eq!(parse_digits(&over, 0, over.len()), None);
}

#[test]
fn parse_i64_chars_reads_signed_whole_numbers() {
    assert_eq!(whole("1735689600000"), Some(1_735_689_600_000));
    assert_eq!(whole("-5"), Some(-5));
    assert_eq!(whole("+5"), Some(5));
    assert_eq!(whole("9223372036854775807"), Some(i64::MAX));
    assert_eq!(whole("9223372036854775808"), None);
    assert_eq!(whole("-9223372036854775808"), Some(i64::MIN));
    assert_eq!(whole("-9223372036854775809"), None);
    for text in ["", "-", "+", "1.0", "1.", " 1", "1e3", "--1"] {
        assert_eq!(whole(text), None, "{text:?}");
    }
}

#[test]
fn parse_u64_chars_reads_counts() {
    assert_eq!(count("0"), Some(0));
    assert_eq!(count("+12"), Some(12));
    assert_eq!(count("18446744073709551615"), Some(u64::MAX));
    assert_eq!(count("18446744073709551616"), None);
    for text in ["", "+", "-0", "-1", "1.5", "x"] {
        assert_eq!(count(text), None, "{text:?}");
    }
}

#[test]
fn chars_of_keeps_every_character() {
    assert_eq!(chars_of("a,é,1"), vec!['a', ',', 'é', ',', '1']);
    assert!(chars_of("").is_empty());
}

#[test]
fn split_ranges_marks_the_fields() {
    assert_eq!(split_ranges(&chars("a,bc,,d"), ','), vec![(0, 1), (2, 4), (5, 5), (6, 7)]);
    assert_eq!(split_ranges(&chars(""), ','), vec![(0, 0)]);
    assert_eq!(split_ranges(&chars("abc"), ','), vec![(0, 3)]);
    assert_eq!(split_ranges(&chars(","), ','), vec![(0, 0), (1, 1)]);
    assert_eq!(split_ranges(&chars("a,"), ','), vec![(0, 1), (2, 2)]);
    assert_eq!(split_ranges(&chars("a;b,c"), ';'), vec![(0, 1), (2, 5)]);
}
