use stock_report::feed::{FeedItem, feed_item_to_entry, rss_entries_from_items};

fn item() -> FeedItem {
    FeedItem {
        title: Some("Quarterly results".to_string()),
        published: Some(1700000000),
        links: vec!["https://example.invalid/a".to_string()],
        summary: Some("A good quarter.".to_string()),
    }
}

#[test]
fn full_item_is_copied_through() {
    let e = feed_item_to_entry(&item());
    assert_eq!(e.title, "Quarterly results");
    assert_eq!(e.date, "2023-11-14");
    assert_eq!(e.link, "https://example.invalid/a");
    assert_eq!(e.summary, "A good quarter.");
}

#[test]
fn missing_summary_gets_its_sentinel_alone() {
    let mut it = item();
    it.summary = None;
    let e = feed_item_to_entry(&it);
    assert_eq!(e.summary, "summary reading error");
    assert_eq!(e.title, "Quarterly results");
    assert_eq!(e.date, "2023-11-14");
    assert_eq!(e.link, "https://example.invalid/a");
}

#[test]
fn each_field_falls_back_independently() {
    let it = FeedItem { title: None, published: None, links: vec![], summary: None };
    let e = feed_item_to_entry(&it);
    assert_eq!(e.title, "title reading error");
    assert_eq!(e.date, "time reading error");
    assert_eq!(e.link, "link reading error");
    assert_eq!(e.summary, "summary reading error");
}

#[test]
fn out_of_range_published_time_fails_the_field() {
    let mut it = item();
    it.published = Some(-1);
    let e = feed_item_to_entry(&it);
    assert_eq!(e.date, "time reading error");
    assert_eq!(e.title, "Quarterly results");
}

#[test]
fn entries_keep_feed_order_and_count() {
    let mut second = item();
    second.title = Some("Second".to_string());
    let entries = rss_entries_from_items(&vec![item(), second]);
    assert_eq!(entries.len(), 2);
    assert_eq!(entries[0].title, "Quarterly results");
    assert_eq!(entries[1].title, "Second");
}
