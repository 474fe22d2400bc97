//! The chart payload parser: reads the provider's nested document shape
//! `{chart: {result: [{timestamp: [..], indicators: {quote: [{open: [..],
//! close: [..], high: [..], low: [..], volume: [..]}]}}]}}` out of the JSON
//! model and produces one display-ready column per field.
//!
//! Degrade-gracefully contract: a timestamp field that is not an array gives
//! a single placeholder date entry; if the five price/volume fields are not
//! simultaneously arrays, the five columns come back empty while the date
//! column is still produced. A single element that fails numeric coercion
//! becomes a placeholder entry at its position, never a failed request.

use vstd::prelude::*;
use crate::json::{JsonValue, member_of, elem_of, get_member, get_element};
use crate::numfmt::{
    parse_decimal, price_text_ok, spec_price_of, volume_text_ok, spec_volume_of, format_price,
    format_volume, parse_decimal_chars,
};
use crate::text::{digits_to_nat, str_chars};
use crate::dates::{MAX_EPOCH_SECS, spec_date_chars, epoch_to_date_string};

verus! {

/// One ordered column of formatted strings per chart field.
pub struct ChartColumns {
    pub date: Vec<String>,
    pub open: Vec<String>,
    pub close: Vec<String>,
    pub high: Vec<String>,
    pub low: Vec<String>,
    pub volume: Vec<String>,
}

/// Placeholder for a timestamp field that is not an array.
pub open spec fn not_series_sentinel() -> Seq<char> {
    "Not a series of date"@
}

/// Placeholder for a single element that does not read as an in-range epoch.
pub open spec fn time_sentinel() -> Seq<char> {
    "time reading error"@
}

/// Placeholder for a single element that does not read as a number.
pub open spec fn num_sentinel() -> Seq<char> {
    "number reading error"@
}

/// The first result object: `doc.chart.result[0]`.
pub open spec fn chart_result0(doc: JsonValue) -> Option<JsonValue> {
    match member_of(doc, "chart"@) {
        Some(c) => match member_of(c, "result"@) {
            Some(r) => elem_of(r, 0),
            None => None,
        },
        None => None,
    }
}

/// The timestamp field of the first result.
pub open spec fn timestamp_field(doc: JsonValue) -> Option<JsonValue> {
    match chart_result0(doc) {
        Some(r0) => member_of(r0, "timestamp"@),
        None => None,
    }
}

/// The first quote object: `doc.chart.result[0].indicators.quote[0]`.
pub open spec fn quote0(doc: JsonValue) -> Option<JsonValue> {
    match chart_result0(doc) {
        Some(r0) => match member_of(r0, "indicators"@) {
            Some(ind) => match member_of(ind, "quote"@) {
                Some(q) => elem_of(q, 0),
                None => None,
            },
            None => None,
        },
        None => None,
    }
}

/// A named field of the first quote object.
pub open spec fn quote_field(doc: JsonValue, name: Seq<char>) -> Option<JsonValue> {
    match quote0(doc) {
        Some(q) => member_of(q, name),
        None => None,
    }
}

/// The five price/volume arrays, present only when all five fields are
/// simultaneously arrays.
pub open spec fn quote_arrays(doc: JsonValue) -> Option<
    (Seq<JsonValue>, Seq<JsonValue>, Seq<JsonValue>, Seq<JsonValue>, Seq<JsonValue>),
> {
    match (
        quote_field(doc, "open"@),
        quote_field(doc, "close"@),
        quote_field(doc, "high"@),
        quote_field(doc, "low"@),
        quote_field(doc, "volume"@),
    ) {
        (
            Some(JsonValue::List(o)),
            Some(JsonValue::List(c)),
            Some(JsonValue::List(h)),
            Some(JsonValue::List(l)),
            Some(JsonValue::List(vm)),
        ) => Some((o@, c@, h@, l@, vm@)),
        _ => None,
    }
}

/// The date string one timestamp element yields: the `YYYY-MM-DD` rendering
/// of an unsigned in-range integer epoch, a placeholder otherwise.
pub open spec fn date_cell(j: JsonValue) -> Seq<char> {
    match j {
        JsonValue::Num(s) => match parse_decimal(s@) {
            Some((neg, ip, f)) => if !neg && f.len() == 0 && ip.len() <= 19 && digits_to_nat(ip)
                < MAX_EPOCH_SECS as nat {
                spec_date_chars(digits_to_nat(ip) as int)
            } else {
                time_sentinel()
            },
            None => time_sentinel(),
        },
        _ => time_sentinel(),
    }
}

/// The string one price element yields.
pub open spec fn price_cell(j: JsonValue) -> Seq<char> {
    match j {
        JsonValue::Num(s) => if price_text_ok(s@) {
            spec_price_of(s@)
        } else {
            num_sentinel()
        },
        _ => num_sentinel(),
    }
}

/// The string one volume element yields.
pub open spec fn volume_cell(j: JsonValue, sep: char) -> Seq<char> {
    match j {
        JsonValue::Num(s) => if volume_text_ok(s@) {
            spec_volume_of(s@, sep)
        } else {
            num_sentinel()
        },
        _ => num_sentinel(),
    }
}

/// The whole date column.
pub open spec fn date_column(doc: JsonValue) -> Seq<Seq<char>> {
    match timestamp_field(doc) {
        Some(ts) => match ts {
            JsonValue::List(items) => items@.map_values(|j: JsonValue| date_cell(j)),
            _ => seq![not_series_sentinel()],
        },
        None => seq![not_series_sentinel()],
    }
}

/// What `tw_stock_process_json` promises of its result.
pub open spec fn chart_columns_ok(doc: JsonValue, cols: ChartColumns, sep: char) -> bool {
    &&& cols.date.deep_view() == date_column(doc)
    &&& match quote_arrays(doc) {
        Some(q) => {
            &&& cols.open.deep_view() == q.0.map_values(|j: JsonValue| price_cell(j))
            &&& cols.close.deep_view() == q.1.map_values(|j: JsonValue| price_cell(j))
            &&& cols.high.deep_view() == q.2.map_values(|j: JsonValue| price_cell(j))
            &&& cols.low.deep_view() == q.3.map_values(|j: JsonValue| price_cell(j))
            &&& cols.volume.deep_view() == q.4.map_values(|j: JsonValue| volume_cell(j, sep))
        },
        None => {
            &&& cols.open@.len() == 0
            &&& cols.close@.len() == 0
            &&& cols.high@.len() == 0
            &&& cols.low@.len() == 0
            &&& cols.volume@.len() == 0
        },
    }
}

/// Renders one timestamp element as a date string, as `date_cell` describes.
pub fn json_unix_time_to_date(j: &JsonValue) -> (s: String)
    ensures
        s@ == date_cell(*j),
{
    match j {
        JsonValue::Num(text) => {
            let cs = str_chars(text.as_str());
            match parse_decimal_chars(&cs) {
                Some(p) => {
                    let (neg, ip, f) = p;
                    if neg || f.len() > 0 || ip.len() > 19 {
                        return "time reading error".to_owned();
                    }
                    proof {
                        crate::text::lemma_digits_to_nat_bound(ip@);
                        crate::numfmt::lemma_pow10_mono(ip@.len() as nat, 33);
                        crate::numfmt::lemma_pow10_vals();
                    }
                    let v = crate::numfmt::digits_value(&ip);
                    if v >= MAX_EPOCH_SECS as u128 {
                        return "time reading error".to_owned();
                    }
                    match epoch_to_date_string(v as i64) {
                        Some(s) => s,
                        None => "time reading error".to_owned(),
                    }
                },
                None => "time reading error".to_owned(),
            }
        },
        _ => "time reading error".to_owned(),
    }
}

/// Renders one price element, as `price_cell` describes.
pub fn render_price_cell(j: &JsonValue) -> (s: String)
    ensures
        s@ == price_cell(*j),
{
    match j {
        JsonValue::Num(text) => match format_price(text.as_str()) {
            Some(s) => s,
            None => "number reading error".to_owned(),
        },
        _ => "number reading error".to_owned(),
    }
}

/// Renders one volume element, as `volume_cell` describes.
pub fn render_volume_cell(j: &JsonValue, sep: char) -> (s: String)
    ensures
        s@ == volume_cell(*j, sep),
{
    match j {
        JsonValue::Num(text) => match format_volume(text.as_str(), sep) {
            Some(s) => s,
            None => "number reading error".to_owned(),
        },
        _ => "number reading error".to_owned(),
    }
}

#[verifier::loop_isolation(false)]
fn render_date_column(items: &Vec<JsonValue>) -> (out: Vec<String>)
    ensures
        out.deep_view() == items@.map_values(|j: JsonValue| date_cell(j)),
{
    let mut out: Vec<String> = Vec::new();
    let mut i: usize = 0;
    while i < items.len()
        invariant
            i <= items@.len(),
            out@.len() == i,
            forall|k: int| 0 <= k < i ==> #[trigger] out@[k]@ == date_cell(items@[k]),
        decreases items@.len() - i,
    {
        out.push(json_unix_time_to_date(&items[i]));
        i = i + 1;
    }
    assert(out.deep_view() =~= items@.map_values(|j: JsonValue| date_cell(j)));
    out
}

#[verifier::loop_isolation(false)]
fn render_price_column(items: &Vec<JsonValue>) -> (out: Vec<String>)
    ensures
        out.deep_view() == items@.map_values(|j: JsonValue| price_cell(j)),
{
    let mut out: Vec<String> = Vec::new();
    let mut i: usize = 0;
    while i < items.len()
        invariant
            i <= items@.len(),
            out@.len() == i,
            forall|k: int| 0 <= k < i ==> #[trigger] out@[k]@ == price_cell(items@[k]),
        decreases items@.len() - i,
    {
        out.push(render_price_cell(&items[i]));
        i = i + 1;
    }
    assert(out.deep_view() =~= items@.map_values(|j: JsonValue| price_cell(j)));
    out
}

#[verifier::loop_isolation(false)]
fn render_volume_column(items: &Vec<JsonValue>, sep: char) -> (out: Vec<String>)
    ensures
        out.deep_view() == items@.map_values(|j: JsonValue| volume_cell(j, sep)),
{
    let mut out: Vec<String> = Vec::new();
    let mut i: usize = 0;
    while i < items.len()
        invariant
            i <= items@.len(),
            out@.len() == i,
            forall|k: int| 0 <= k < i ==> #[trigger] out@[k]@ == volume_cell(items@[k], sep),
        decreases items@.len() - i,
    {
        out.push(render_volume_cell(&items[i], sep));
        i = i + 1;
    }
    assert(out.deep_view() =~= items@.map_values(|j: JsonValue| volume_cell(j, sep)));
    out
}

fn not_series_column() -> (out: Vec<String>)
    ensures
        out.deep_view() == seq![not_series_sentinel()],
{
    let mut out: Vec<String> = Vec::new();
    out.push("Not a series of date".to_owned());
    assert(out.deep_view() =~= seq![not_series_sentinel()]);
    out
}

/// Extracts and formats the six chart columns from a parsed payload, as
/// `chart_columns_ok` describes.
pub fn tw_stock_process_json(doc: &JsonValue, sep: char) -> (r: ChartColumns)
    ensures
        chart_columns_ok(*doc, r, sep),
{
    let r0: Option<&JsonValue> = match get_member(doc, "chart") {
        Some(c) => match get_member(c, "result") {
            Some(rs) => get_element(rs, 0),
            None => None,
        },
        None => None,
    };
    proof {
        match r0 {
            Some(j) => assert(chart_result0(*doc) == Some(*j)),
            None => assert(chart_result0(*doc) is None),
        }
    }
    let ts: Option<&JsonValue> = match r0 {
        Some(j) => get_member(j, "timestamp"),
        None => None,
    };
    let date_col: Vec<String> = match ts {
        Some(JsonValue::List(items)) => render_date_column(items),
        Some(_) => not_series_column(),
        None => not_series_column(),
    };
    let q0: Option<&JsonValue> = match r0 {
        Some(j) => match get_member(j, "indicators") {
            Some(ind) => match get_member(ind, "quote") {
                Some(q) => get_element(q, 0),
                None => None,
            },
            None => None,
        },
        None => None,
    };
    proof {
        match q0 {
            Some(j) => assert(quote0(*doc) == Some(*j)),
            None => assert(quote0(*doc) is None),
        }
    }
    let fo: Option<&JsonValue> = match q0 {
        Some(q) => get_member(q, "open"),
        None => None,
    };
    let fc: Option<&JsonValue> = match q0 {
        Some(q) => get_member(q, "close"),
        None => None,
    };
    let fh: Option<&JsonValue> = match q0 {
        Some(q) => get_member(q, "high"),
        None => None,
    };
    let fl: Option<&JsonValue> = match q0 {
        Some(q) => get_member(q, "low"),
        None => None,
    };
    let fv: Option<&JsonValue> = match q0 {
        Some(q) => get_member(q, "volume"),
        None => None,
    };
    match (fo, fc, fh, fl, fv) {
        (
            Some(JsonValue::List(o)),
            Some(JsonValue::List(c)),
            Some(JsonValue::List(h)),
            Some(JsonValue::List(l)),
            Some(JsonValue::List(vm)),
        ) => {
            let cols = ChartColumns {
                date: date_col,
                open: render_price_column(o),
                close: render_price_column(c),
                high: render_price_column(h),
                low: render_price_column(l),
                volume: render_volume_column(vm, sep),
            };
            cols
        },
        _ => {
            let cols = ChartColumns {
                date: date_col,
                open: Vec::new(),
                close: Vec::new(),
                high: Vec::new(),
                low: Vec::new(),
                volume: Vec::new(),
            };
            assert(quote_arrays(*doc) is None);
            cols
        },
    }
}

} // verus!
