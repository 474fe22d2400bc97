//! Conversion of epoch seconds to `YYYY-MM-DD` date strings, fixed to the
//! proleptic Gregorian calendar in UTC regardless of the host time zone.
//!
//! Policy: epochs before 1970-01-01 or on/after 10000-01-01 are treated as
//! out of range; callers fall back per field instead of failing a request.

use vstd::prelude::*;
use vstd::string::StringExecFns;
use crate::text::{dec_str, zero_pad, pad_digits, chars_to_string};

verus! {

/// First epoch second not rendered: 10000-01-01T00:00:00Z.
pub const MAX_EPOCH_SECS: i64 = 253402300800;

/// Last day number (days since 1970-01-01) that is rendered: 9999-12-31.
pub const MAX_EPOCH_DAYS: u64 = 2932896;

/// Gregorian leap-year rule.
pub open spec fn is_leap_year(y: int) -> bool {
    (y % 4 == 0 && y % 100 != 0) || y % 400 == 0
}

pub open spec fn days_in_year(y: int) -> int {
    if is_leap_year(y) {
        366
    } else {
        365
    }
}

/// Month lengths; months outside 1..=12 never arise for in-range inputs.
pub open spec fn days_in_month(y: int, m: int) -> int {
    if m == 2 {
        if is_leap_year(y) {
            29
        } else {
            28
        }
    } else if m == 4 || m == 6 || m == 9 || m == 11 {
        30
    } else {
        31
    }
}

/// Walks forward one year at a time from year `y`, consuming `rem` days;
/// stops in the year that `rem` falls inside, returning it and the days left.
pub open spec fn year_split(y: int, rem: int) -> (int, int)
    decreases rem,
{
    if rem < days_in_year(y) {
        (y, rem)
    } else {
        year_split(y + 1, rem - days_in_year(y))
    }
}

/// Walks forward one month at a time inside year `y`, as `year_split` does
/// for years.
pub open spec fn month_split(y: int, m: int, rem: int) -> (int, int)
    decreases rem,
{
    if rem < days_in_month(y, m) {
        (m, rem)
    } else {
        month_split(y, m + 1, rem - days_in_month(y, m))
    }
}

/// The calendar date `(year, month, day)` of the day numbered `days` counted
/// from 1970-01-01.
pub open spec fn ymd_of_days(days: int) -> (int, int, int) {
    let yr = year_split(1970, days);
    let mr = month_split(yr.0, 1, yr.1);
    (yr.0, mr.0, mr.1 + 1)
}

/// The `YYYY-MM-DD` rendering of the UTC date holding epoch second `secs`.
pub open spec fn spec_date_chars(secs: int) -> Seq<char> {
    let ymd = ymd_of_days(secs / 86400);
    zero_pad(dec_str(ymd.0 as nat), 4) + seq!['-'] + zero_pad(dec_str(ymd.1 as nat), 2)
        + seq!['-'] + zero_pad(dec_str(ymd.2 as nat), 2)
}

/// Days in the years 1970 (inclusive) to `y` (exclusive).
pub open spec fn days_before_year(y: int) -> int
    decreases y,
{
    if y <= 1970 {
        0
    } else {
        days_before_year(y - 1) + days_in_year(y - 1)
    }
}

/// Days in the months 1 (inclusive) to `m` (exclusive) of year `y`.
pub open spec fn days_before_month(y: int, m: int) -> int
    decreases m,
{
    if m <= 1 {
        0
    } else {
        days_before_month(y, m - 1) + days_in_month(y, m - 1)
    }
}

/// A calendar date of the epoch's era.
pub open spec fn valid_ymd(y: int, m: int, d: int) -> bool {
    1970 <= y && 1 <= m <= 12 && 1 <= d <= days_in_month(y, m)
}

/// The day number (days since 1970-01-01) of a calendar date.
pub open spec fn day_number(y: int, m: int, d: int) -> int {
    days_before_year(y) + days_before_month(y, m) + d - 1
}

proof fn lemma_year_split(y0: int, rem: int)
    requires
        1970 <= y0,
        0 <= rem,
    ensures
        y0 <= year_split(y0, rem).0,
        0 <= year_split(y0, rem).1 < days_in_year(year_split(y0, rem).0),
        days_before_year(year_split(y0, rem).0) - days_before_year(y0) + year_split(y0, rem).1
            == rem,
    decreases rem,
{
    if rem >= days_in_year(y0) {
        lemma_year_split(y0 + 1, rem - days_in_year(y0));
    }
}

proof fn lemma_month_split(y: int, m0: int, rem: int)
    requires
        1 <= m0,
        0 <= rem,
    ensures
        m0 <= month_split(y, m0, rem).0,
        0 <= month_split(y, m0, rem).1 < days_in_month(y, month_split(y, m0, rem).0),
        days_before_month(y, month_split(y, m0, rem).0) - days_before_month(y, m0) + month_split(
            y,
            m0,
            rem,
        ).1 == rem,
    decreases rem,
{
    if rem >= days_in_month(y, m0) {
        lemma_month_split(y, m0 + 1, rem - days_in_month(y, m0));
    }
}

/// The twelve months of a year hold exactly its days.
proof fn lemma_months_sum(y: int)
    ensures
        days_before_month(y, 13) == days_in_year(y),
{
    reveal_with_fuel(days_before_month, 14);
}

proof fn lemma_month_split_stays_in_year(y: int, m0: int, rem: int)
    requires
        1 <= m0 <= 12,
        0 <= rem < days_before_month(y, 13) - days_before_month(y, m0),
    ensures
        month_split(y, m0, rem).0 <= 12,
    decreases 12 - m0,
{
    if rem >= days_in_month(y, m0) {
        reveal_with_fuel(days_before_month, 14);
        lemma_month_split_stays_in_year(y, m0 + 1, rem - days_in_month(y, m0));
    }
}

/// `ymd_of_days` really is the Gregorian conversion: for any non-negative
/// day number it yields a valid calendar date whose canonical day count,
/// `day_number`, is that number again.
pub proof fn lemma_ymd_of_days_is_civil(days: int)
    requires
        0 <= days,
    ensures
        valid_ymd(ymd_of_days(days).0, ymd_of_days(days).1, ymd_of_days(days).2),
        day_number(ymd_of_days(days).0, ymd_of_days(days).1, ymd_of_days(days).2) == days,
{
    lemma_year_split(1970, days);
    let y = year_split(1970, days).0;
    let rem = year_split(1970, days).1;
    lemma_month_split(y, 1, rem);
    lemma_months_sum(y);
    lemma_month_split_stays_in_year(y, 1, rem);
}

fn is_leap_year_x(y: u64) -> (b: bool)
    ensures
        b == is_leap_year(y as int),
{
    (y % 4 == 0 && y % 100 != 0) || y % 400 == 0
}

fn days_in_year_x(y: u64) -> (d: u64)
    ensures
        d as int == days_in_year(y as int),
{
    if is_leap_year_x(y) {
        366
    } else {
        365
    }
}

fn days_in_month_x(y: u64, m: u64) -> (d: u64)
    ensures
        d as int == days_in_month(y as int, m as int),
{
    if m == 2 {
        if is_leap_year_x(y) {
            29
        } else {
            28
        }
    } else if m == 4 || m == 6 || m == 9 || m == 11 {
        30
    } else {
        31
    }
}

/// The calendar date of day number `days` counted from 1970-01-01.
#[verifier::loop_isolation(false)]
pub fn civil_from_days(days: u64) -> (r: (u64, u64, u64))
    requires
        days <= MAX_EPOCH_DAYS,
    ensures
        (r.0 as int, r.1 as int, r.2 as int) == ymd_of_days(days as int),
        valid_ymd(r.0 as int, r.1 as int, r.2 as int),
        day_number(r.0 as int, r.1 as int, r.2 as int) == days as int,
{
    proof {
        lemma_ymd_of_days_is_civil(days as int);
    }
    let mut y: u64 = 1970;
    let mut rem: u64 = days;
    while rem >= days_in_year_x(y)
        invariant
            rem <= days,
            y - 1970 <= days - rem,
            year_split(1970, days as int) == year_split(y as int, rem as int),
        decreases rem,
    {
        let len = days_in_year_x(y);
        rem = rem - len;
        y = y + 1;
    }
    assert(year_split(y as int, rem as int) == (y as int, rem as int));
    let mut m: u64 = 1;
    let ghost rem_y: int = rem as int;
    while rem >= days_in_month_x(y, m)
        invariant
            rem <= rem_y,
            m - 1 <= rem_y - rem,
            month_split(y as int, 1, rem_y) == month_split(y as int, m as int, rem as int),
        decreases rem,
    {
        let len = days_in_month_x(y, m);
        rem = rem - len;
        m = m + 1;
    }
    assert(month_split(y as int, m as int, rem as int) == (m as int, rem as int));
    (y, m, rem + 1)
}

/// Renders epoch second `secs` as a `YYYY-MM-DD` UTC date string; `None`
/// exactly on out-of-range epochs. The mapping is a pure function of `secs`.
pub fn epoch_to_date_string(secs: i64) -> (r: Option<String>)
    ensures
        match r {
            Some(s) => 0 <= secs < MAX_EPOCH_SECS && s@ == spec_date_chars(secs as int),
            None => !(0 <= secs < MAX_EPOCH_SECS),
        },
{
    if secs < 0 || secs >= MAX_EPOCH_SECS {
        return None;
    }
    let days = (secs / 86400) as u64;
    assert(days <= MAX_EPOCH_DAYS);
    let (y, m, d) = civil_from_days(days);
    let mut out = pad_digits(y as u128, 4);
    out.push('-');
    let mth = pad_digits(m as u128, 2);
    let mut i: usize = 0;
    while i < mth.len()
        invariant
            i <= mth@.len(),
            out@ =~= zero_pad(dec_str(y as nat), 4) + seq!['-'] + mth@.subrange(0, i as int),
        decreases mth.len() - i,
    {
        out.push(mth[i]);
        assert(out@ =~= zero_pad(dec_str(y as nat), 4) + seq!['-'] + mth@.subrange(
            0,
            i + 1 as int,
        ));
        i = i + 1;
    }
    assert(mth@.subrange(0, mth@.len() as int) =~= mth@);
    out.push('-');
    let dy = pad_digits(d as u128, 2);
    let ghost head: Seq<char> = out@;
    let mut j: usize = 0;
    while j < dy.len()
        invariant
            j <= dy@.len(),
            out@ =~= head + dy@.subrange(0, j as int),
        decreases dy.len() - j,
    {
        out.push(dy[j]);
        assert(out@ =~= head + dy@.subrange(0, j + 1 as int));
        j = j + 1;
    }
    assert(dy@.subrange(0, dy@.len() as int) =~= dy@);
    assert(out@ =~= spec_date_chars(secs as int));
    Some(chars_to_string(&out))
}

} // verus!
