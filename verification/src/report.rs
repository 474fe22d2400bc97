//! The record merger: zips the chart columns into one record per trading
//! day, and assembles the combined report handed to presentation.
//!
//! The merger reproduces the observed row count of the reference behaviour:
//! it iterates only over indices `0 .. len(dates) - 1`, dropping the last
//! day. Unlike the reference it never indexes past a short column: the row
//! count is additionally clipped to the shortest of the five price/volume
//! columns, so a degraded payload gives fewer rows, never a failure.

use vstd::prelude::*;
use crate::chart::{ChartColumns, chart_columns_ok};
use crate::feed::{NewsEntry, FeedItem, news_entries_ok, rss_entries_from_items};
use crate::json::{JsonValue, json_document_of, parse_json_document};

verus! {

/// One aligned, formatted row of date + OHLCV.
pub struct TradingDay {
    pub date: String,
    pub open: String,
    pub close: String,
    pub high: String,
    pub low: String,
    pub volume: String,
}

/// The unit handed to presentation: columns, identifier, news entries.
pub struct StockReport {
    pub stock_id: String,
    pub columns: ChartColumns,
    pub news: Vec<NewsEntry>,
}

/// A fetched document that does not parse as its expected structural format
/// at all; surfaced to the caller, never recovered locally. The feed
/// document is read at the I/O edge, so `FeedPayloadMalformed` is raised by
/// the adapter there, not by the library.
#[derive(Debug, PartialEq, Eq, Structural, Clone, Copy)]
pub enum ReportError {
    ChartPayloadMalformed,
    FeedPayloadMalformed,
}

/// How many rows the merger yields: all dates but the last, clipped to the
/// shortest price/volume column.
pub open spec fn spec_row_count(cols: ChartColumns) -> int {
    if cols.date@.len() == 0 {
        0
    } else {
        min6(
            cols.date@.len() - 1,
            cols.open@.len() as int,
            cols.close@.len() as int,
            cols.high@.len() as int,
            cols.low@.len() as int,
            cols.volume@.len() as int,
        )
    }
}

pub open spec fn min6(a: int, b: int, c: int, d: int, e: int, f: int) -> int {
    min2(a, min2(b, min2(c, min2(d, min2(e, f)))))
}

pub open spec fn min2(a: int, b: int) -> int {
    if a <= b {
        a
    } else {
        b
    }
}

/// Row `i` of the merge reads every column at index `i`.
pub open spec fn row_ok(cols: ChartColumns, i: int, day: TradingDay) -> bool {
    &&& day.date@ == cols.date@[i]@
    &&& day.open@ == cols.open@[i]@
    &&& day.close@ == cols.close@[i]@
    &&& day.high@ == cols.high@[i]@
    &&& day.low@ == cols.low@[i]@
    &&& day.volume@ == cols.volume@[i]@
}

/// Zips the columns into per-day records at equal index, dropping the last
/// day. With six equally long columns of length `n >= 1` it yields exactly
/// `n - 1` records.
#[verifier::loop_isolation(false)]
pub fn transverse_stock_data_by_date(cols: &ChartColumns) -> (r: Vec<TradingDay>)
    ensures
        r@.len() == spec_row_count(*cols),
        forall|i: int| 0 <= i < r@.len() ==> row_ok(*cols, i, #[trigger] r@[i]),
{
    let n = row_count(cols);
    let mut r: Vec<TradingDay> = Vec::new();
    let mut i: usize = 0;
    while i < n
        invariant
            i <= n,
            n == spec_row_count(*cols),
            n <= cols.date@.len(),
            n <= cols.open@.len(),
            n <= cols.close@.len(),
            n <= cols.high@.len(),
            n <= cols.low@.len(),
            n <= cols.volume@.len(),
            r@.len() == i,
            forall|k: int| 0 <= k < i ==> row_ok(*cols, k, #[trigger] r@[k]),
        decreases n - i,
    {
        let day = TradingDay {
            date: cols.date[i].clone(),
            open: cols.open[i].clone(),
            close: cols.close[i].clone(),
            high: cols.high[i].clone(),
            low: cols.low[i].clone(),
            volume: cols.volume[i].clone(),
        };
        r.push(day);
        i = i + 1;
    }
    r
}

/// With six equally long columns of length `n >= 1`, the merger's row count
/// is exactly `n - 1`: the drop-last-day behaviour, stated on its own.
pub proof fn lemma_equal_columns_drop_last(cols: ChartColumns, n: int)
    requires
        n >= 1,
        cols.date@.len() == n,
        cols.open@.len() == n,
        cols.close@.len() == n,
        cols.high@.len() == n,
        cols.low@.len() == n,
        cols.volume@.len() == n,
    ensures
        spec_row_count(cols) == n - 1,
{
}

fn row_count(cols: &ChartColumns) -> (n: usize)
    ensures
        n == spec_row_count(*cols),
        n <= cols.date@.len(),
        n <= cols.open@.len(),
        n <= cols.close@.len(),
        n <= cols.high@.len(),
        n <= cols.low@.len(),
        n <= cols.volume@.len(),
{
    if cols.date.len() == 0 {
        return 0;
    }
    let mut n = cols.date.len() - 1;
    if cols.open.len() < n {
        n = cols.open.len();
    }
    if cols.close.len() < n {
        n = cols.close.len();
    }
    if cols.high.len() < n {
        n = cols.high.len();
    }
    if cols.low.len() < n {
        n = cols.low.len();
    }
    if cols.volume.len() < n {
        n = cols.volume.len();
    }
    n
}

/// The whole reshaping pipeline as a pure function of the chart payload
/// text, the already-read feed items and the identifier: parse the chart
/// document, format its columns with `sep` as the volume separator, and
/// build the news entries. `Err` exactly when the chart text does not parse
/// at all; a parsed document of an unexpected shape degrades per column or
/// per field instead.
pub fn build_stock_report(
    chart_text: &str,
    feed_items: &Vec<FeedItem>,
    stock_id: String,
    sep: char,
) -> (r: Result<StockReport, ReportError>)
    ensures
        match r {
            Ok(rep) => {
                &&& json_document_of(chart_text@) matches Some(doc) && chart_columns_ok(
                    doc,
                    rep.columns,
                    sep,
                )
                &&& news_entries_ok(feed_items@, rep.news@)
                &&& rep.stock_id == stock_id
            },
            Err(e) => e == ReportError::ChartPayloadMalformed && json_document_of(chart_text@)
                is None,
        },
{
    let doc: JsonValue = match parse_json_document(chart_text) {
        Some(d) => d,
        None => {
            return Err(ReportError::ChartPayloadMalformed);
        },
    };
    let columns = crate::chart::tw_stock_process_json(&doc, sep);
    let news = rss_entries_from_items(feed_items);
    Ok(StockReport { stock_id, columns, news })
}

/// The chart half of the pipeline on its own, for the columns-only API
/// surface: parse the payload text and format the six columns. `Err` exactly
/// when the text does not parse as JSON.
pub fn build_chart_columns(chart_text: &str, sep: char) -> (r: Result<ChartColumns, ReportError>)
    ensures
        match r {
            Ok(cols) => json_document_of(chart_text@) matches Some(doc) && chart_columns_ok(
                doc,
                cols,
                sep,
            ),
            Err(e) => e == ReportError::ChartPayloadMalformed && json_document_of(chart_text@)
                is None,
        },
{
    let doc: JsonValue = match parse_json_document(chart_text) {
        Some(d) => d,
        None => {
            return Err(ReportError::ChartPayloadMalformed);
        },
    };
    Ok(crate::chart::tw_stock_process_json(&doc, sep))
}

} // verus!
