use kline_trader::errors::Error;
use kline_trader::models::{FromDelimitedString, HistoricalKlineEvent, KlineEvent, BAR_FIELDS};

const LINE: &str = "1561939200000,290.31000000,292.54000000,288.12000000,291.76000000,\
12345.67800000,1561942799999,3601234.56789012,4321,6000.50000000,1750000.25000000,0";

fn text_of(error: Error) -> String {
    error.to_text()
}

#[test]
fn a_line_of_twelve_fields_is_a_bar() {
    let bar = HistoricalKlineEvent::from_delimited_string(LINE, ',').unwrap();
    assert_eq!(bar.t, 1_561_939_200_000);
    assert_eq!(bar.o, 29_031_000_000);
    assert_eq!(bar.h, 29_254_000_000);
    assert_eq!(bar.l, 28_812_000_000);
    assert_eq!(bar.c, 29_176_000_000);
    assert_eq!(bar.v, 1_234_567_800_000);
    assert_eq!(bar.T, 1_561_942_799_999);
    assert_eq!(bar.q, 360_123_456_789_012);
    assert_eq!(bar.n, 4321);
    assert_eq!(bar.V, 600_050_000_000);
    assert_eq!(bar.Q, 175_000_025_000_000);
    assert_eq!(bar.B, "0");
    assert_eq!(BAR_FIELDS, 12);
}

#[test]
fn another_delimiter_reads_the_same_bar() {
    let line = LINE.replace(',', ";");
    let bar = HistoricalKlineEvent::from_delimited_string(&line, ';').unwrap();
    assert_eq!(bar.c, 29_176_000_000);
    assert!(HistoricalKlineEvent::from_delimited_string(&line, ',').is_err());
}

#[test]
fn the_last_field_is_free_text() {
    let line = "1,1,1,1,1,1,2,1,1,1,1,not a number é";
    let bar = HistoricalKlineEvent::from_delimited_string(line, ',').unwrap();
    assert_eq!(bar.B, "not a number é");
    let empty = "1,1,1,1,1,1,2,1,1,1,1,";
    assert_eq!(HistoricalKlineEvent::from_delimited_string(empty, ',').unwrap().B, "");
}

#[test]
fn a_line_of_another_length_is_refused() {
    for line in ["", "1,2,3", "1,1,1,1,1,1,2,1,1,1,1", "1,1,1,1,1,1,2,1,1,1,1,0,9"] {
        let error = HistoricalKlineEvent::from_delimited_string(line, ',').unwrap_err();
        assert!(matches!(error, Error::Other(_)), "{line:?}");
        assert_eq!(text_of(error), "Length of line not equal to expected length");
    }
}

#[test]
fn the_first_unreadable_field_is_named() {
    let good: Vec<&str> = LINE.split(',').collect();
    let bad = ["x", "1.2.3", "", "1e5", "0.123456789", "-", "1.5", "abc", "-1", "1 ", "--1"];
    for index in 0..11 {
        let mut fields: Vec<String> = good.iter().map(|field| field.to_string()).collect();
        fields[index] = bad[index].to_string();
        let line = fields.join(",");
        let error = HistoricalKlineEvent::from_delimited_string(&line, ',').unwrap_err();
        assert!(matches!(error, Error::Parse(_)), "field {index}");
        assert_eq!(text_of(error), format!("Failed to parse field {index}"));
    }
    let two_bad = "1,oops,1,1,1,1,2,1,nope,1,1,0";
    let error = HistoricalKlineEvent::from_delimited_string(two_bad, ',').unwrap_err();
    assert_eq!(text_of(error), "Failed to parse field 1");
    let late = "1,1,1,1,1,1,2,1,1,1,bad,0";
    let error = HistoricalKlineEvent::from_delimited_string(late, ',').unwrap_err();
    assert_eq!(text_of(error), "Failed to parse field 10");
}

#[test]
fn field_types_differ_by_position() {
    // a time must be whole, a count must not be negative, a price must fit
    assert!(HistoricalKlineEvent::from_delimited_string("1.0,1,1,1,1,1,2,1,1,1,1,0", ',').is_err());
    assert!(HistoricalKlineEvent::from_delimited_string("-7,1,1,1,1,1,2,1,1,1,1,0", ',').is_ok());
    assert!(HistoricalKlineEvent::from_delimited_string("1,1,1,1,1,1,2,1,-1,1,1,0", ',').is_err());
    let wide = "1,1,1,1,1,92233720369,2,1,1,1,1,0";
    assert_eq!(
        HistoricalKlineEvent::from_delimited_string(wide, ',').unwrap().v,
        9_223_372_036_900_000_000
    );
    let too_dear = "1,92233720369,1,1,1,1,2,1,1,1,1,0";
    let error = HistoricalKlineEvent::from_delimited_string(too_dear, ',').unwrap_err();
    assert_eq!(text_of(error), "Failed to parse field 1");
}

#[test]
fn an_archived_bar_becomes_a_streaming_event() {
    let bar = HistoricalKlineEvent::from_delimited_string(LINE, ',').unwrap();
    let event = KlineEvent::from(bar.clone());
    assert_eq!(event.e, "");
    assert_eq!(event.E, 0);
    assert_eq!(event.s, "");
    assert_eq!(event.k.t, bar.t);
    assert_eq!(event.k.T, bar.T);
    assert_eq!(event.k.s, "");
    assert_eq!(event.k.i, "");
    assert_eq!(event.k.f, 0);
    assert_eq!(event.k.L, 0);
    assert_eq!(event.k.o, "290.31000000");
    assert_eq!(event.k.c, 29_176_000_000);
    assert_eq!(event.k.h, "292.54000000");
    assert_eq!(event.k.l, "288.12000000");
    assert_eq!(event.k.v, "12345.67800000");
    assert_eq!(event.k.n, 4321);
    assert!(event.k.x);
    assert_eq!(event.k.q, "3601234.56789012");
    assert_eq!(event.k.V, "6000.50000000");
    assert_eq!(event.k.Q, "1750000.25000000");
    assert_eq!(event.k.B, "0");
    let through_into: KlineEvent = bar.into();
    assert_eq!(through_into.k.c, 29_176_000_000);
}

#[test]
fn archived_bars_compare_by_start_time_alone() {
    let early = HistoricalKlineEvent::from_delimited_string("1,9,9,9,9,9,2,9,9,9,9,a", ',').unwrap();
    let same = HistoricalKlineEvent::from_delimited_string("1,3,3,3,3,3,4,3,3,3,3,b", ',').unwrap();
    let late = HistoricalKlineEvent::from_delimited_string("5,1,1,1,1,1,6,1,1,1,1,c", ',').unwrap();
    assert!(early == same);
    assert!(early != late);
    assert!(early < late);
    assert!(late > same);
    assert!(early <= same && early >= same);
    assert_eq!(early.partial_cmp(&late), Some(std::cmp::Ordering::Less));
    assert_eq!(late.partial_cmp(&early), Some(std::cmp::Ordering::Greater));
    assert_eq!(early.partial_cmp(&same), Some(std::cmp::Ordering::Equal));
}

#[test]
fn clones_keep_every_field() {
    let bar = HistoricalKlineEvent::from_delimited_string(LINE, ',').unwrap();
    let copy = bar.clone();
    assert_eq!(format!("{:?}", copy), format!("{:?}", bar));
    let event = KlineEvent::from(bar);
    assert_eq!(format!("{:?}", event.clone()), format!("{:?}", event));
    assert_eq!(format!("{:?}", event.k.clone()), format!("{:?}", event.k));
}

#[test]
fn errors_give_their_text() {
    assert_eq!(Error::Parse(String::from("p")).to_text(), "p");
    assert_eq!(Error::Other(String::from("o")).to_text(), "o");
}
