use crate::decimal::{
    amount_field, count_field, decimal_text, format_decimal, format_natural, integer_field,
    natural_text, parse_decimal_chars, parse_i64_chars, parse_price_chars, parse_u64_chars,
    price_field,
};
use crate::errors::Error;
use crate::text::{chars_of, split, split_ranges};
use std::cmp::Ordering;
use vstd::prelude::*;
use vstd::std_specs::cmp::{PartialEqSpecImpl, PartialOrdSpecImpl};
use vstd::string::{StrSliceExecFns, StringExecFns};

verus! {

/// One closed bar or tick as the streaming source sends it.
///
/// `c` is the closing price in units of `10^-8`; the strategies read nothing
/// else. The other decimal fields keep the text that the source sent.
#[allow(non_snake_case)]
#[derive(Debug)]
pub struct Kline {
    /// Start time of the bar.
    pub t: i64,
    /// Close time of the bar.
    pub T: i64,
    /// Symbol.
    pub s: String,
    /// Interval, such as `1m`.
    pub i: String,
    /// First trade id.
    pub f: i64,
    /// Last trade id.
    pub L: i64,
    /// Open price.
    pub o: String,
    /// Close price, in units of `10^-8`.
    pub c: i64,
    /// High price.
    pub h: String,
    /// Low price.
    pub l: String,
    /// Volume in the base asset.
    pub v: String,
    /// Number of trades.
    pub n: u64,
    /// Whether the bar is closed.
    pub x: bool,
    /// Volume in the quote asset.
    pub q: String,
    /// Taker buy volume in the base asset.
    pub V: String,
    /// Taker buy volume in the quote asset.
    pub Q: String,
    /// Unused by the source.
    pub B: String,
}

impl Clone for Kline {
    fn clone(&self) -> (copy: Self)
        ensures
            copy == *self,
    {
        Kline {
            t: self.t,
            T: self.T,
            s: self.s.clone(),
            i: self.i.clone(),
            f: self.f,
            L: self.L,
            o: self.o.clone(),
            c: self.c,
            h: self.h.clone(),
            l: self.l.clone(),
            v: self.v.clone(),
            n: self.n,
            x: self.x,
            q: self.q.clone(),
            V: self.V.clone(),
            Q: self.Q.clone(),
            B: self.B.clone(),
        }
    }
}

/// A bar together with the envelope that the streaming source wraps it in.
#[allow(non_snake_case)]
#[derive(Debug)]
pub struct KlineEvent {
    /// Event type.
    pub e: String,
    /// Event time.
    pub E: u64,
    /// Symbol.
    pub s: String,
    /// The bar.
    pub k: Kline,
}

impl Clone for KlineEvent {
    fn clone(&self) -> (copy: Self)
        ensures
            copy == *self,
    {
        KlineEvent { e: self.e.clone(), E: self.E, s: self.s.clone(), k: self.k.clone() }
    }
}

/// One bar of a downloaded archive. Prices are in units of `10^-8` and so are
/// the volumes, which get a wider type.
#[allow(non_snake_case)]
#[derive(Debug)]
pub struct HistoricalKlineEvent {
    /// Start time of the bar.
    pub t: i64,
    /// Open price.
    pub o: i64,
    /// High price.
    pub h: i64,
    /// Low price.
    pub l: i64,
    /// Close price.
    pub c: i64,
    /// Volume in the base asset.
    pub v: i128,
    /// Close time of the bar.
    pub T: i64,
    /// Volume in the quote asset.
    pub q: i128,
    /// Number of trades.
    pub n: u64,
    /// Taker buy volume in the base asset.
    pub V: i128,
    /// Taker buy volume in the quote asset.
    pub Q: i128,
    /// Unused by the source.
    pub B: String,
}

impl Clone for HistoricalKlineEvent {
    fn clone(&self) -> (copy: Self)
        ensures
            copy == *self,
    {
        HistoricalKlineEvent {
            t: self.t,
            o: self.o,
            h: self.h,
            l: self.l,
            c: self.c,
            v: self.v,
            T: self.T,
            q: self.q,
            n: self.n,
            V: self.V,
            Q: self.Q,
            B: self.B.clone(),
        }
    }
}

/// Whether `event` is the streaming form of an archived bar: the bar's times,
/// close and trade count as they are, its other amounts written out as
/// decimals, the bar marked closed, and everything that an archive does not
/// hold left empty or zero.
pub open spec fn is_streaming_form(bar: HistoricalKlineEvent, event: KlineEvent) -> bool {
    &&& event.e@ == Seq::<char>::empty()
    &&& event.E == 0
    &&& event.s@ == Seq::<char>::empty()
    &&& event.k.t == bar.t
    &&& event.k.T == bar.T
    &&& event.k.s@ == Seq::<char>::empty()
    &&& event.k.i@ == Seq::<char>::empty()
    &&& event.k.f == 0
    &&& event.k.L == 0
    &&& event.k.o@ == decimal_text(bar.o as int)
    &&& event.k.c == bar.c
    &&& event.k.h@ == decimal_text(bar.h as int)
    &&& event.k.l@ == decimal_text(bar.l as int)
    &&& event.k.v@ == decimal_text(bar.v as int)
    &&& event.k.n == bar.n
    &&& event.k.x
    &&& event.k.q@ == decimal_text(bar.q as int)
    &&& event.k.V@ == decimal_text(bar.V as int)
    &&& event.k.Q@ == decimal_text(bar.Q as int)
    &&& event.k.B@ == bar.B@
}

/// The conversion is stated as a relation, `is_streaming_form`, on the
/// function itself: a `String` is known by its text only, so no spec function
/// can name the one event that comes out.
impl vstd::std_specs::convert::FromSpecImpl<HistoricalKlineEvent> for KlineEvent {
    open spec fn obeys_from_spec() -> bool {
        false
    }

    open spec fn from_spec(value: HistoricalKlineEvent) -> Self {
        arbitrary()
    }
}

impl From<HistoricalKlineEvent> for KlineEvent {
    fn from(value: HistoricalKlineEvent) -> (event: Self)
        ensures
            is_streaming_form(value, event),
    {
        let kline = Kline {
            t: value.t,
            T: value.T,
            s: String::new(),
            i: String::new(),
            f: 0,
            L: 0,
            o: format_decimal(value.o as i128),
            c: value.c,
            h: format_decimal(value.h as i128),
            l: format_decimal(value.l as i128),
            v: format_decimal(value.v),
            n: value.n,
            x: true,
            q: format_decimal(value.q),
            V: format_decimal(value.V),
            Q: format_decimal(value.Q),
            B: value.B,
        };
        KlineEvent { e: String::new(), E: 0, s: String::new(), k: kline }
    }
}

/// Archived bars are told apart by their start time alone: two bars of one
/// start time are the same bar from overlapping archives.
impl PartialEq for HistoricalKlineEvent {
    fn eq(&self, other: &Self) -> (same: bool) {
        self.t == other.t
    }
}

impl PartialEqSpecImpl for HistoricalKlineEvent {
    open spec fn obeys_eq_spec() -> bool {
        true
    }

    open spec fn eq_spec(&self, other: &Self) -> bool {
        self.t == other.t
    }
}

impl Eq for HistoricalKlineEvent {

}

/// Archived bars are ordered by their start time.
impl PartialOrd for HistoricalKlineEvent {
    fn partial_cmp(&self, other: &Self) -> (order: Option<Ordering>) {
        if self.t < other.t {
            Some(Ordering::Less)
        } else if self.t > other.t {
            Some(Ordering::Greater)
        } else {
            Some(Ordering::Equal)
        }
    }
}

impl PartialOrdSpecImpl for HistoricalKlineEvent {
    open spec fn obeys_partial_cmp_spec() -> bool {
        true
    }

    open spec fn partial_cmp_spec(&self, other: &Self) -> Option<Ordering> {
        if self.t < other.t {
            Some(Ordering::Less)
        } else if self.t > other.t {
            Some(Ordering::Greater)
        } else {
            Some(Ordering::Equal)
        }
    }
}

/// Values that are written as one line of delimited fields, without field
/// names.
pub trait FromDelimitedString<A>: Sized {
    /// Whether a line writes a value.
    spec fn is_readable(line: A, delimiter: char) -> bool;

    /// Whether `value` is what a line writes.
    spec fn is_read_from(line: A, delimiter: char, value: Self) -> bool;

    fn from_delimited_string(line: A, delimiter: char) -> (outcome: Result<Self, Error>)
        ensures
            outcome is Ok <==> Self::is_readable(line, delimiter),
            outcome matches Ok(value) ==> Self::is_read_from(line, delimiter, value),
    ;
}

/// The number of fields in the line of an archived bar.
pub const BAR_FIELDS: usize = 12;

/// Whether field `k` of an archived bar's line writes a value of its type:
/// times in fields 0 and 6, prices in 1 to 4, volumes in 5, 7, 9 and 10, the
/// trade count in 8, and free text in 11.
pub open spec fn field_is_readable(fields: Seq<Seq<char>>, k: int) -> bool {
    if k == 0 || k == 6 {
        integer_field(fields[k]) is Some
    } else if 1 <= k <= 4 {
        price_field(fields[k]) is Some
    } else if k == 5 || k == 7 || k == 9 || k == 10 {
        amount_field(fields[k]) is Some
    } else if k == 8 {
        count_field(fields[k]) is Some
    } else {
        true
    }
}

/// The first field from `from` on that writes no value of its type, or
/// `BAR_FIELDS` where all do.
pub open spec fn first_unreadable_field(fields: Seq<Seq<char>>, from: int) -> int
    decreases BAR_FIELDS - from,
{
    if from >= BAR_FIELDS || !field_is_readable(fields, from) {
        from
    } else {
        first_unreadable_field(fields, from + 1)
    }
}

/// What the parser says of a field that it cannot read.
pub open spec fn field_error_text(index: nat) -> Seq<char> {
    "Failed to parse field "@ + natural_text(index)
}

/// What the parser says of a line with another number of fields than
/// `BAR_FIELDS`.
pub open spec fn length_error_text() -> Seq<char> {
    "Length of line not equal to expected length"@
}

fn field_error(index: usize) -> (error: Error)
    ensures
        error is Parse,
        error.message() == field_error_text(index as nat),
{
    let text = String::from_str("Failed to parse field ").concat(
        format_natural(index as u128).as_str(),
    );
    Error::Parse(text)
}

impl<'a> FromDelimitedString<&'a str> for HistoricalKlineEvent {
    /// A line writes a bar where it has `BAR_FIELDS` fields and each writes a
    /// value of its type.
    open spec fn is_readable(line: &'a str, delimiter: char) -> bool {
        let fields = split(line@, delimiter);
        fields.len() == BAR_FIELDS && first_unreadable_field(fields, 0) == BAR_FIELDS
    }

    /// The bar holds, field by field, the values that the line writes.
    open spec fn is_read_from(line: &'a str, delimiter: char, value: Self) -> bool {
        let fields = split(line@, delimiter);
        &&& integer_field(fields[0]) == Some(value.t)
        &&& price_field(fields[1]) == Some(value.o)
        &&& price_field(fields[2]) == Some(value.h)
        &&& price_field(fields[3]) == Some(value.l)
        &&& price_field(fields[4]) == Some(value.c)
        &&& amount_field(fields[5]) == Some(value.v)
        &&& integer_field(fields[6]) == Some(value.T)
        &&& amount_field(fields[7]) == Some(value.q)
        &&& count_field(fields[8]) == Some(value.n)
        &&& amount_field(fields[9]) == Some(value.V)
        &&& amount_field(fields[10]) == Some(value.Q)
        &&& value.B@ == fields[11]
    }

    /// Reads one line of an archive. A line with another number of fields
    /// than `BAR_FIELDS` is refused as a whole; otherwise the first field
    /// that cannot be read is named in the error.
    fn from_delimited_string(line: &'a str, delimiter: char) -> (outcome: Result<Self, Error>)
        ensures
            outcome matches Err(error) ==> {
                let fields = split(line@, delimiter);
                if fields.len() != BAR_FIELDS {
                    error is Other && error.message() == length_error_text()
                } else {
                    error is Parse && error.message() == field_error_text(
                        first_unreadable_field(fields, 0) as nat,
                    )
                }
            },
    {
        let chars = chars_of(line);
        let ranges = split_ranges(chars.as_slice(), delimiter);
        let ghost fields = split(line@, delimiter);
        if ranges.len() != BAR_FIELDS {
            return Err(
                Error::Other(String::from_str("Length of line not equal to expected length")),
            );
        }
        proof {
            reveal_with_fuel(first_unreadable_field, 13);
        }
        let text = chars.as_slice();
        let t = match parse_i64_chars(text, ranges[0].0, ranges[0].1) {
            Some(value) => value,
            None => {
                return Err(field_error(0));
            },
        };
        let o = match parse_price_chars(text, ranges[1].0, ranges[1].1) {
            Some(value) => value,
            None => {
                return Err(field_error(1));
            },
        };
        let h = match parse_price_chars(text, ranges[2].0, ranges[2].1) {
            Some(value) => value,
            None => {
                return Err(field_error(2));
            },
        };
        let l = match parse_price_chars(text, ranges[3].0, ranges[3].1) {
            Some(value) => value,
            None => {
                return Err(field_error(3));
            },
        };
        let c = match parse_price_chars(text, ranges[4].0, ranges[4].1) {
            Some(value) => value,
            None => {
                return Err(field_error(4));
            },
        };
        let v = match parse_decimal_chars(text, ranges[5].0, ranges[5].1) {
            Some(value) => value,
            None => {
                return Err(field_error(5));
            },
        };
        let close_time = match parse_i64_chars(text, ranges[6].0, ranges[6].1) {
            Some(value) => value,
            None => {
                return Err(field_error(6));
            },
        };
        let q = match parse_decimal_chars(text, ranges[7].0, ranges[7].1) {
            Some(value) => value,
            None => {
                return Err(field_error(7));
            },
        };
        let n = match parse_u64_chars(text, ranges[8].0, ranges[8].1) {
            Some(value) => value,
            None => {
                return Err(field_error(8));
            },
        };
        let taker_base = match parse_decimal_chars(text, ranges[9].0, ranges[9].1) {
            Some(value) => value,
            None => {
                return Err(field_error(9));
            },
        };
        let taker_quote = match parse_decimal_chars(text, ranges[10].0, ranges[10].1) {
            Some(value) => value,
            None => {
                return Err(field_error(10));
            },
        };
        let unused = line.substring_char(ranges[11].0, ranges[11].1).to_owned();
        Ok(
            HistoricalKlineEvent {
                t,
                o,
                h,
                l,
                c,
                v,
                T: close_time,
                q,
                n,
                V: taker_base,
                Q: taker_quote,
                B: unused,
            },
        )
    }
}

} // verus!
