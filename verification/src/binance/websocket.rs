use crate::errors::Error;
use url::{ParseError, Url};
use vstd::prelude::*;
use vstd::string::StringExecFns;

verus! {

#[verifier::external_type_specification]
#[verifier::external_body]
pub struct ExUrl(Url);

#[verifier::external_type_specification]
#[verifier::external_body]
pub struct ExParseError(ParseError);

/// The width of one bar of a stream.
#[derive(Debug, Clone, Copy, PartialEq, Eq, Hash, Structural)]
pub enum KlineInterval {
    OneSecond,
    OneMinute,
    ThreeMinutes,
    FiveMinutes,
    FifteenMinutes,
    ThirtyMinutes,
    OneHour,
    TwoHours,
    FourHours,
    SixHours,
    EightHours,
    TwelveHours,
    OneDay,
    ThreeDays,
    OneWeek,
    OneMonth,
}

impl KlineInterval {
    /// The name that the exchange gives the interval.
    pub open spec fn text(&self) -> Seq<char> {
        match self {
            KlineInterval::OneSecond => "1s"@,
            KlineInterval::OneMinute => "1m"@,
            KlineInterval::ThreeMinutes => "3m"@,
            KlineInterval::FiveMinutes => "5m"@,
            KlineInterval::FifteenMinutes => "15m"@,
            KlineInterval::ThirtyMinutes => "30m"@,
            KlineInterval::OneHour => "1h"@,
            KlineInterval::TwoHours => "2h"@,
            KlineInterval::FourHours => "4h"@,
            KlineInterval::SixHours => "6h"@,
            KlineInterval::EightHours => "8h"@,
            KlineInterval::TwelveHours => "12h"@,
            KlineInterval::OneDay => "1d"@,
            KlineInterval::ThreeDays => "3d"@,
            KlineInterval::OneWeek => "1w"@,
            KlineInterval::OneMonth => "1M"@,
        }
    }

    /// The name that the exchange gives the interval.
    pub fn as_str(&self) -> (name: &'static str)
        ensures
            name@ == self.text(),
    {
        match self {
            KlineInterval::OneSecond => "1s",
            KlineInterval::OneMinute => "1m",
            KlineInterval::ThreeMinutes => "3m",
            KlineInterval::FiveMinutes => "5m",
            KlineInterval::FifteenMinutes => "15m",
            KlineInterval::ThirtyMinutes => "30m",
            KlineInterval::OneHour => "1h",
            KlineInterval::TwoHours => "2h",
            KlineInterval::FourHours => "4h",
            KlineInterval::SixHours => "6h",
            KlineInterval::EightHours => "8h",
            KlineInterval::TwelveHours => "12h",
            KlineInterval::OneDay => "1d",
            KlineInterval::ThreeDays => "3d",
            KlineInterval::OneWeek => "1w",
            KlineInterval::OneMonth => "1M",
        }
    }
}

/// Where the exchange serves its streams.
pub const BASE_END_POINT: &'static str = "wss://stream.binance.com:9443";

/// The name of the stream of a symbol's bars of one width.
pub open spec fn stream_name_text(symbol: Seq<char>, interval: KlineInterval) -> Seq<char> {
    symbol + "@kline_"@ + interval.text()
}

/// The address of the stream of a symbol's bars of one width.
pub open spec fn stream_endpoint_text(symbol: Seq<char>, interval: KlineInterval) -> Seq<char> {
    BASE_END_POINT@ + "/ws/"@ + stream_name_text(symbol, interval)
}

/// The name of the stream of a symbol's bars of one width.
pub fn stream_name(symbol: &str, interval: &KlineInterval) -> (name: String)
    ensures
        name@ == stream_name_text(symbol@, *interval),
{
    String::from_str(symbol).concat("@kline_").concat(interval.as_str())
}

/// The address of the stream of a symbol's bars of one width.
pub fn stream_endpoint(symbol: &str, interval: &KlineInterval) -> (end_point: String)
    ensures
        end_point@ == stream_endpoint_text(symbol@, *interval),
{
    let name = stream_name(symbol, interval);
    let end_point = String::from_str(BASE_END_POINT).concat("/ws/").concat(name.as_str());
    end_point
}

/// Whether a text is an absolute URL to `url::Url::parse`.
pub uninterp spec fn is_absolute_url(text: Seq<char>) -> bool;

/// `url::Url::parse`. Whether it accepts a text depends on the text alone;
/// the rules fill a standard, so the condition is named `is_absolute_url`
/// here, not spelled out. Nothing is said of the address that comes out.
#[verifier::external_body]
fn parse_url(text: &str) -> (outcome: Result<Url, ParseError>)
    ensures
        outcome is Ok <==> is_absolute_url(text@),
{
    Url::parse(text)
}

/// What is said of a text that is no address.
pub open spec fn invalid_url_text() -> Seq<char> {
    "Invalid URL"@
}

/// Reads an address, or says that the text is none.
pub fn parse_end_point(text: &str) -> (outcome: Result<Url, Error>)
    ensures
        outcome is Ok <==> is_absolute_url(text@),
        outcome matches Err(error) ==> error is Other && error.message() == invalid_url_text(),
{
    match parse_url(text) {
        Ok(address) => Ok(address),
        Err(_) => Err(Error::Other(String::from_str("Invalid URL"))),
    }
}

/// The address of the stream of a symbol's bars of one width, ready to
/// connect to.
pub fn stream_url(symbol: &str, interval: &KlineInterval) -> (outcome: Result<Url, Error>)
    ensures
        outcome is Ok <==> is_absolute_url(stream_endpoint_text(symbol@, *interval)),
        outcome matches Err(error) ==> error is Other && error.message() == invalid_url_text(),
{
    let end_point = stream_endpoint(symbol, interval);
    parse_end_point(end_point.as_str())
}

} // verus!
