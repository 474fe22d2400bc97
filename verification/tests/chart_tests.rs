use stock_report::chart::{json_unix_time_to_date, tw_stock_process_json};
use stock_report::json::JsonValue;
use stock_report::report::transverse_stock_data_by_date;

fn num(s: &str) -> JsonValue {
    JsonValue::Num(s.to_string())
}

fn nums(xs: &[&str]) -> JsonValue {
    JsonValue::List(xs.iter().map(|s| num(s)).collect())
}

fn dict(entries: Vec<(&str, JsonValue)>) -> JsonValue {
    JsonValue::Dict(entries.into_iter().map(|(k, v)| (k.to_string(), v)).collect())
}

fn chart_doc(timestamp: JsonValue, quote: Option<JsonValue>) -> JsonValue {
    let mut result0 = vec![("timestamp", timestamp)];
    if let Some(q) = quote {
        result0.push(("indicators", dict(vec![("quote", JsonValue::List(vec![q]))])));
    }
    dict(vec![("chart", dict(vec![("result", JsonValue::List(vec![dict(result0)]))]))])
}

fn full_quote() -> JsonValue {
    dict(vec![
        ("open", nums(&["10", "11", "12"])),
        ("close", nums(&["10.5", "11.5", "12.5"])),
        ("high", nums(&["11", "12", "13"])),
        ("low", nums(&["9", "10", "11"])),
        ("volume", nums(&["1000", "2000", "3000"])),
    ])
}

#[test]
fn timestamp_element_renders_as_date() {
    assert_eq!(json_unix_time_to_date(&num("1700000000")), "2023-11-14");
}

#[test]
fn timestamp_element_fallbacks() {
    assert_eq!(json_unix_time_to_date(&JsonValue::Null), "time reading error");
    assert_eq!(json_unix_time_to_date(&num("-5")), "time reading error");
    assert_eq!(json_unix_time_to_date(&num("10.5")), "time reading error");
    assert_eq!(json_unix_time_to_date(&JsonValue::Text("x".to_string())), "time reading error");
}

#[test]
fn well_formed_payload_formats_all_columns() {
    let doc = chart_doc(nums(&["1700000000", "1700086400", "1700172800"]), Some(full_quote()));
    let cols = tw_stock_process_json(&doc, ',');
    assert_eq!(cols.date, vec!["2023-11-14", "2023-11-15", "2023-11-16"]);
    assert_eq!(cols.open, vec!["10.00", "11.00", "12.00"]);
    assert_eq!(cols.close, vec!["10.50", "11.50", "12.50"]);
    assert_eq!(cols.high, vec!["11.00", "12.00", "13.00"]);
    assert_eq!(cols.low, vec!["9.00", "10.00", "11.00"]);
    assert_eq!(cols.volume, vec!["1,000", "2,000", "3,000"]);
}

#[test]
fn absent_quote_arrays_give_empty_price_columns() {
    let doc = chart_doc(nums(&["1700000000", "1700086400"]), None);
    let cols = tw_stock_process_json(&doc, ',');
    assert_eq!(cols.date.len(), 2);
    assert!(cols.open.is_empty());
    assert!(cols.close.is_empty());
    assert!(cols.high.is_empty());
    assert!(cols.low.is_empty());
    assert!(cols.volume.is_empty());
}

#[test]
fn null_quote_arrays_give_empty_price_columns() {
    let quote = dict(vec![
        ("open", JsonValue::Null),
        ("close", JsonValue::Null),
        ("high", JsonValue::Null),
        ("low", JsonValue::Null),
        ("volume", JsonValue::Null),
    ]);
    let doc = chart_doc(nums(&["1700000000"]), Some(quote));
    let cols = tw_stock_process_json(&doc, ',');
    assert_eq!(cols.date, vec!["2023-11-14"]);
    assert!(cols.open.is_empty());
    assert!(cols.volume.is_empty());
}

#[test]
fn non_array_timestamp_gives_placeholder_entry() {
    let doc = chart_doc(JsonValue::Null, Some(full_quote()));
    let cols = tw_stock_process_json(&doc, ',');
    assert_eq!(cols.date, vec!["Not a series of date"]);
}

#[test]
fn exponent_formatted_price_is_formatted_exactly() {
    let quote = dict(vec![
        ("open", nums(&["1e20", "1.5e-7"])),
        ("close", nums(&["10.5", "11.5"])),
        ("high", nums(&["11", "12"])),
        ("low", nums(&["9", "10"])),
        ("volume", nums(&["1000", "2000"])),
    ]);
    let doc = chart_doc(nums(&["1700000000", "1700086400"]), Some(quote));
    let cols = tw_stock_process_json(&doc, ',');
    assert_eq!(cols.open, vec!["100000000000000000000.00", "0.00"]);
}

#[test]
fn malformed_element_fails_that_field_only() {
    let quote = dict(vec![
        ("open", nums(&["10", "oops"])),
        ("close", nums(&["10.5", "11.5"])),
        ("high", nums(&["11", "12"])),
        ("low", nums(&["9", "10"])),
        ("volume", nums(&["1000", "2000"])),
    ]);
    let doc = chart_doc(nums(&["1700000000", "1700086400"]), Some(quote));
    let cols = tw_stock_process_json(&doc, ',');
    assert_eq!(cols.open, vec!["10.00", "number reading error"]);
    assert_eq!(cols.close, vec!["10.50", "11.50"]);
}

#[test]
fn bad_timestamp_element_becomes_a_placeholder_entry() {
    let doc = chart_doc(nums(&["1700000000", "bad", "1700172800"]), None);
    let cols = tw_stock_process_json(&doc, ',');
    assert_eq!(cols.date, vec!["2023-11-14", "time reading error", "2023-11-16"]);
}

#[test]
fn merger_drops_the_last_day() {
    let doc = chart_doc(nums(&["1700000000", "1700086400", "1700172800"]), Some(full_quote()));
    let cols = tw_stock_process_json(&doc, ',');
    let days = transverse_stock_data_by_date(&cols);
    assert_eq!(days.len(), 2);
    assert_eq!(days[0].date, "2023-11-14");
    assert_eq!(days[1].date, "2023-11-15");
}

#[test]
fn merger_of_empty_columns_yields_no_rows() {
    let doc = chart_doc(nums(&[]), None);
    let cols = tw_stock_process_json(&doc, ',');
    let days = transverse_stock_data_by_date(&cols);
    assert!(days.is_empty());
}
