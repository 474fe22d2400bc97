use stock_report::feed::FeedItem;
use stock_report::report::{build_stock_report, transverse_stock_data_by_date, ReportError};

const CHART_JSON: &str = r#"{"chart":{"result":[{"timestamp":[1700000000,1700086400,1700172800],
"indicators":{"quote":[{"open":[10,11,12],"close":[10.5,11.5,12.5],"high":[11,12,13],
"low":[9,10,11],"volume":[1000,2000,3000]}]}}]}}"#;

const FEED_XML: &str = r#"<?xml version="1.0" encoding="UTF-8"?>
<rss version="2.0"><channel><title>News</title><link>https://example.invalid</link>
<description>Example channel</description>
<item><title>First story</title><link>https://example.invalid/1</link>
<description>Body one</description><pubDate>Tue, 14 Nov 2023 22:13:20 GMT</pubDate></item>
<item><title>No summary here</title><link>https://example.invalid/2</link>
<pubDate>Wed, 15 Nov 2023 10:00:00 GMT</pubDate></item>
<item><description>No link on this one</description></item>
</channel></rss>"#;

/// What the adapter does at the I/O edge: read the feed document once and
/// keep one plain-value item per entry.
fn feed_items_from_bytes(bytes: &[u8]) -> Option<Vec<FeedItem>> {
    let feed = feed_rs::parser::parse(bytes).ok()?;
    Some(
        feed.entries
            .into_iter()
            .map(|e| FeedItem {
                title: e.title.map(|t| t.content),
                published: e.published.map(|d| d.timestamp()),
                links: e.links.into_iter().map(|l| l.href).collect(),
                summary: e.summary.map(|t| t.content),
            })
            .collect(),
    )
}

#[test]
fn end_to_end_report() {
    let items = feed_items_from_bytes(FEED_XML.as_bytes()).unwrap();
    let report = build_stock_report(CHART_JSON, &items, "2330".to_string(), ',').unwrap();
    assert_eq!(report.stock_id, "2330");

    assert_eq!(report.columns.date, vec!["2023-11-14", "2023-11-15", "2023-11-16"]);
    assert_eq!(report.columns.open, vec!["10.00", "11.00", "12.00"]);
    assert_eq!(report.columns.close, vec!["10.50", "11.50", "12.50"]);
    assert_eq!(report.columns.high, vec!["11.00", "12.00", "13.00"]);
    assert_eq!(report.columns.low, vec!["9.00", "10.00", "11.00"]);
    assert_eq!(report.columns.volume, vec!["1,000", "2,000", "3,000"]);

    let days = transverse_stock_data_by_date(&report.columns);
    assert_eq!(days.len(), 2);
    assert_eq!(days[0].date, "2023-11-14");
    assert_eq!(days[0].open, "10.00");
    assert_eq!(days[0].close, "10.50");
    assert_eq!(days[0].high, "11.00");
    assert_eq!(days[0].low, "9.00");
    assert_eq!(days[0].volume, "1,000");

    assert_eq!(report.news.len(), 3);
    assert_eq!(report.news[0].title, "First story");
    assert_eq!(report.news[0].date, "2023-11-14");
    assert_eq!(report.news[0].link, "https://example.invalid/1");
    assert_eq!(report.news[0].summary, "Body one");
    assert_eq!(report.news[1].title, "No summary here");
    assert_eq!(report.news[1].summary, "summary reading error");
    assert_eq!(report.news[2].title, "title reading error");
    assert_eq!(report.news[2].date, "time reading error");
    assert_eq!(report.news[2].link, "link reading error");
    assert_eq!(report.news[2].summary, "No link on this one");
}

#[test]
fn suspended_symbol_degrades_to_empty_price_columns() {
    let chart = r#"{"chart":{"result":[{"timestamp":[1700000000,1700086400],
"indicators":{"quote":[{"open":null,"close":null,"high":null,"low":null,"volume":null}]}}]}}"#;
    let report = build_stock_report(chart, &vec![], "2330".to_string(), ',').unwrap();
    assert_eq!(report.columns.date, vec!["2023-11-14", "2023-11-15"]);
    assert!(report.columns.open.is_empty());
    assert!(report.columns.close.is_empty());
    assert!(report.columns.high.is_empty());
    assert!(report.columns.low.is_empty());
    assert!(report.columns.volume.is_empty());
}

#[test]
fn non_array_timestamp_degrades_to_placeholder() {
    let chart = r#"{"chart":{"result":[{"timestamp":null}]}}"#;
    let report = build_stock_report(chart, &vec![], "2330".to_string(), ',').unwrap();
    assert_eq!(report.columns.date, vec!["Not a series of date"]);
}

#[test]
fn malformed_chart_payload_is_a_request_failure() {
    let r = build_stock_report("not json at all", &vec![], "2330".to_string(), ',');
    assert_eq!(r.err().unwrap(), ReportError::ChartPayloadMalformed);
}

#[test]
fn feed_bytes_that_do_not_parse_are_rejected_at_the_edge() {
    assert!(feed_items_from_bytes(b"<html>nope</html>").is_none());
}
