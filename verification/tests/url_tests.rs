use stock_report::urls::{Date, get_rss_data, get_stock_data};

#[test]
fn tokens_render_as_short_forms() {
    assert_eq!(Date::Day(1).as_str(), "1d");
    assert_eq!(Date::Week(2).as_str(), "2wk");
    assert_eq!(Date::Month(13).as_str(), "13mo");
    assert_eq!(Date::YearToDate.as_str(), "ytd");
    assert_eq!(Date::Max.as_str(), "max");
}

#[test]
fn rss_url_carries_the_symbol() {
    assert_eq!(get_rss_data("2330"), "https://tw.stock.yahoo.com/rss?s=2330");
}

#[test]
fn chart_url_carries_symbol_interval_and_range() {
    assert_eq!(
        get_stock_data("2330", Date::Day(1), Date::YearToDate),
        "https://query1.finance.yahoo.com/v8/finance/chart/2330.TW?metrics=Date,High,Low,Open,Close,Volume&interval=1d&range=ytd"
    );
}
