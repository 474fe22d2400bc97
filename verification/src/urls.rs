//! Interval and range tokens, and the two provider request URLs.
//!
//! Fetching is the caller's concern: these functions only build the URL
//! text that an HTTP client is pointed at.

use vstd::prelude::*;
use vstd::string::StringExecFns;
use crate::text::{dec_str, nat_to_digits, chars_to_string};

verus! {

/// An interval or range token: a day, week or month count, the whole
/// history, or the year to date.
#[derive(Debug, Clone, Copy)]
pub enum Date {
    Day(u8),
    Week(u8),
    Month(u8),
    Max,
    YearToDate,
}

/// The short token a `Date` renders to: `NNd`, `NNwk`, `NNmo`, `ytd`, `max`.
pub open spec fn spec_date_token(d: Date) -> Seq<char> {
    match d {
        Date::Day(n) => dec_str(n as nat) + "d"@,
        Date::Week(n) => dec_str(n as nat) + "wk"@,
        Date::Month(n) => dec_str(n as nat) + "mo"@,
        Date::YearToDate => "ytd"@,
        Date::Max => "max"@,
    }
}

impl Date {
    /// Renders the token, as `spec_date_token` describes.
    pub fn as_str(&self) -> (r: String)
        ensures
            r@ == spec_date_token(*self),
    {
        match self {
            Date::Day(n) => {
                let mut s = chars_to_string(&nat_to_digits(*n as u128));
                s.append("d");
                s
            },
            Date::Week(n) => {
                let mut s = chars_to_string(&nat_to_digits(*n as u128));
                s.append("wk");
                s
            },
            Date::Month(n) => {
                let mut s = chars_to_string(&nat_to_digits(*n as u128));
                s.append("mo");
                s
            },
            Date::YearToDate => "ytd".to_owned(),
            Date::Max => "max".to_owned(),
        }
    }
}

/// The news feed request URL for one stock identifier.
pub fn get_rss_data(stock_id: &str) -> (r: String)
    ensures
        r@ == "https://tw.stock.yahoo.com/rss?s="@ + stock_id@,
{
    let mut s = "https://tw.stock.yahoo.com/rss?s=".to_owned();
    s.append(stock_id);
    s
}

/// The chart request URL for one stock identifier, interval and range.
pub fn get_stock_data(stock_id: &str, interval: Date, range: Date) -> (r: String)
    ensures
        r@ == "https://query1.finance.yahoo.com/v8/finance/chart/"@ + stock_id@
            + ".TW?metrics=Date,High,Low,Open,Close,Volume&interval="@ + spec_date_token(interval)
            + "&range="@ + spec_date_token(range),
{
    let mut s = "https://query1.finance.yahoo.com/v8/finance/chart/".to_owned();
    s.append(stock_id);
    s.append(".TW?metrics=Date,High,Low,Open,Close,Volume&interval=");
    let interval_str = interval.as_str();
    s.append(interval_str.as_str());
    s.append("&range=");
    let range_str = range.as_str();
    s.append(range_str.as_str());
    s
}

} // verus!
