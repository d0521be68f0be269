use crate::decimal::{natural_text, padded_text, push_natural, push_padded};
use vstd::prelude::*;
use vstd::string::StringExecFns;

verus! {

/// Where the exchange serves its archives.
pub const BASE: &'static str = "https://data.binance.vision/data";

/// The first year of the calendar that the archive's dates are taken from.
pub const MIN_YEAR: i32 = -262143;

/// The last year of that calendar.
pub const MAX_YEAR: i32 = 262142;

/// One month of one year: the unit in which the exchange cuts its monthly
/// archives.
#[derive(Debug, Clone, Copy, PartialEq, Eq, Structural)]
pub struct YearMonth {
    year: i32,
    month: u32,
}

impl YearMonth {
    #[verifier::type_invariant]
    spec fn well_formed(&self) -> bool {
        MIN_YEAR <= self.year <= MAX_YEAR && 1 <= self.month <= 12
    }

    pub closed spec fn year_spec(&self) -> int {
        self.year as int
    }

    pub closed spec fn month_spec(&self) -> int {
        self.month as int
    }

    /// The month's place in the run of all months: one more for each month
    /// later.
    pub open spec fn index(&self) -> int {
        self.year_spec() * 12 + self.month_spec() - 1
    }

    /// A month of the calendar, or `None` for a month outside 1 to 12 or a
    /// year outside the calendar.
    pub fn new(year: i32, month: u32) -> (made: Option<Self>)
        ensures
            made is Some <==> MIN_YEAR <= year <= MAX_YEAR && 1 <= month <= 12,
            made matches Some(value) ==> value.year_spec() == year && value.month_spec() == month,
    {
        if year < MIN_YEAR || year > MAX_YEAR || month < 1 || month > 12 {
            None
        } else {
            Some(YearMonth { year, month })
        }
    }

    pub fn year(&self) -> (year: i32)
        ensures
            year == self.year_spec(),
            MIN_YEAR <= year <= MAX_YEAR,
    {
        proof {
            use_type_invariant(self);
        }
        self.year
    }

    pub fn month(&self) -> (month: u32)
        ensures
            month == self.month_spec(),
            1 <= month <= 12,
    {
        proof {
            use_type_invariant(self);
        }
        self.month
    }

    /// The month after this one, or `None` after the calendar's last.
    pub fn next(&self) -> (following: Option<Self>)
        ensures
            following is Some <==> self.index() < last_month_index(),
            following matches Some(value) ==> value.index() == self.index() + 1,
    {
        proof {
            use_type_invariant(self);
        }
        if self.month < 12 {
            Some(YearMonth { year: self.year, month: self.month + 1 })
        } else if self.year < MAX_YEAR {
            Some(YearMonth { year: self.year + 1, month: 1 })
        } else {
            None
        }
    }

    /// Whether this month is `other` or comes before it.
    pub fn is_at_most(&self, other: &Self) -> (at_most: bool)
        ensures
            at_most == (self.index() <= other.index()),
    {
        proof {
            use_type_invariant(self);
            use_type_invariant(other);
        }
        self.year < other.year || (self.year == other.year && self.month <= other.month)
    }
}

/// The place of the calendar's last month.
pub open spec fn last_month_index() -> int {
    MAX_YEAR * 12 + 11
}

/// How many months a range holds: those from `start` to `end`, both
/// included, but for the calendar's last month, which has no month after it
/// and is never given.
pub open spec fn month_count(start: YearMonth, end: YearMonth) -> int {
    let last = if end.index() < last_month_index() {
        end.index()
    } else {
        last_month_index() - 1
    };
    if start.index() <= last {
        last - start.index() + 1
    } else {
        0
    }
}

/// The months from `start` to `end` in order, each given while a month
/// follows it in the calendar.
pub fn generate_date_range(start: YearMonth, end: YearMonth) -> (months: Vec<YearMonth>)
    ensures
        months@.len() == month_count(start, end),
        forall|k: int| 0 <= k < months@.len() ==> (#[trigger] months@[k]).index() == start.index() + k,
{
    let mut months: Vec<YearMonth> = Vec::new();
    let mut current = start;
    proof {
        use_type_invariant(&start);
    }
    loop
        invariant
            current.index() == start.index() + months@.len(),
            current.index() <= last_month_index(),
            forall|k: int|
                0 <= k < months@.len() ==> (#[trigger] months@[k]).index() == start.index() + k,
            forall|k: int|
                0 <= k < months@.len() ==> (#[trigger] months@[k]).index() <= end.index()
                    && months@[k].index() < last_month_index(),
        ensures
            months@.len() == month_count(start, end),
            forall|k: int|
                0 <= k < months@.len() ==> (#[trigger] months@[k]).index() == start.index() + k,
        decreases last_month_index() - current.index(),
    {
        proof {
            use_type_invariant(&current);
            use_type_invariant(&end);
            if months@.len() > 0 {
                assert(months@[months@.len() - 1].index() <= end.index());
            }
        }
        if !current.is_at_most(&end) {
            break;
        }
        match current.next() {
            None => {
                break;
            },
            Some(following) => {
                months.push(current);
                current = following;
            },
        }
    }
    months
}

/// A year as the archive's file names write it: four digits from year 0 to
/// 9999, and outside of that a sign and at least four digits.
pub open spec fn year_text(year: int) -> Seq<char> {
    if 0 <= year <= 9999 {
        padded_text(year as nat, 4)
    } else if year > 9999 {
        seq!['+'] + natural_text(year as nat)
    } else if year > -10000 {
        seq!['-'] + padded_text((-year) as nat, 4)
    } else {
        seq!['-'] + natural_text((-year) as nat)
    }
}

/// A month as the archive's file names write it: the year, a hyphen and the
/// month in two digits.
pub open spec fn year_month_text(date: YearMonth) -> Seq<char> {
    year_text(date.year_spec()) + seq!['-'] + padded_text(date.month_spec() as nat, 2)
}

/// The name of the archive of one month of a symbol's bars of one width.
pub open spec fn file_name_text(symbol: Seq<char>, interval: Seq<char>, date: YearMonth) -> Seq<
    char,
> {
    symbol + seq!['-'] + interval + seq!['-'] + year_month_text(date) + ".zip"@
}

/// The directory part shared by an archive's remote and local place.
pub open spec fn klines_path_text(
    frequency: Seq<char>,
    symbol: Seq<char>,
    interval: Seq<char>,
) -> Seq<char> {
    "/spot/"@ + frequency + "/klines/"@ + symbol + seq!['/'] + interval
}

fn push_year_month(out: &mut String, date: &YearMonth)
    ensures
        final(out)@ == old(out)@ + year_month_text(*date),
{
    let year = date.year();
    let month = date.month();
    proof {
        reveal_strlit("+");
        reveal_strlit("-");
    }
    if 0 <= year && year <= 9999 {
        push_padded(out, year as u128, 4);
    } else if year > 9999 {
        out.append("+");
        push_natural(out, year as u128);
    } else if year > -10000 {
        out.append("-");
        push_padded(out, (-year) as u128, 4);
    } else {
        out.append("-");
        push_natural(out, (-year) as u128);
    }
    out.append("-");
    push_padded(out, month as u128, 2);
}

fn push_klines_path(out: &mut String, frequency: &str, symbol: &str, interval: &str)
    ensures
        final(out)@ == old(out)@ + klines_path_text(frequency@, symbol@, interval@),
{
    proof {
        reveal_strlit("/");
    }
    out.append("/spot/");
    out.append(frequency);
    out.append("/klines/");
    out.append(symbol);
    out.append("/");
    out.append(interval);
}

/// The name under which the exchange serves the archive of one month.
pub fn get_remove_file_name(symbol: &str, interval: &str, date: &YearMonth) -> (name: String)
    ensures
        name@ == file_name_text(symbol@, interval@, *date),
{
    proof {
        reveal_strlit("-");
    }
    let mut name = String::from_str(symbol);
    name.append("-");
    name.append(interval);
    name.append("-");
    push_year_month(&mut name, date);
    name.append(".zip");
    name
}

/// The directory in which the exchange serves the archives of a symbol's
/// bars of one width.
pub fn get_remote_file_path(frequency: &str, symbol: &str, interval: &str) -> (path: String)
    ensures
        path@ == BASE@ + klines_path_text(frequency@, symbol@, interval@),
{
    let mut path = String::from_str(BASE);
    push_klines_path(&mut path, frequency, symbol, interval);
    path
}

/// The name under which an archive is kept on disk: the exchange's own.
pub fn get_local_file_name(symbol: &str, interval: &str, date: &YearMonth) -> (name: String)
    ensures
        name@ == file_name_text(symbol@, interval@, *date),
{
    get_remove_file_name(symbol, interval, date)
}

/// The directory in which the archives of a symbol's bars of one width are
/// kept on disk.
pub fn get_local_file_path(frequency: &str, symbol: &str, interval: &str) -> (path: String)
    ensures
        path@ == "data"@ + klines_path_text(frequency@, symbol@, interval@),
{
    let mut path = String::from_str("data");
    push_klines_path(&mut path, frequency, symbol, interval);
    path
}

/// The address from which the archive of one month is fetched: the remote
/// directory, a slash and the file's name.
pub fn get_remote_file_url(
    frequency: &str,
    symbol: &str,
    interval: &str,
    date: &YearMonth,
) -> (address: String)
    ensures
        address@ == BASE@ + klines_path_text(frequency@, symbol@, interval@) + seq!['/']
            + file_name_text(symbol@, interval@, *date),
{
    proof {
        reveal_strlit("/");
    }
    let mut address = get_remote_file_path(frequency, symbol, interval);
    address.append("/");
    address.append(get_remove_file_name(symbol, interval, date).as_str());
    address
}

} // verus!
