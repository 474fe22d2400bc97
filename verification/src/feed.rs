//! The feed entry parser: turns syndication feed items into display-ready
//! news entries, keeping feed order, one entry per item, none dropped.
//!
//! The feed document itself is read once, at the I/O edge outside the
//! library (a feed parser may reject or even abort on adversarial bytes);
//! the adapter hands in one [`FeedItem`] of plain values per item, and
//! everything from there on is verified.
//!
//! Each of the four fields falls back independently to a fixed sentinel
//! string when absent; the absence of one field never drops the entry nor
//! aborts the rest. An item with no links gets the link sentinel rather than
//! failing the request.

use vstd::prelude::*;
use crate::dates::{MAX_EPOCH_SECS, spec_date_chars, epoch_to_date_string};

verus! {

/// What the library reads of one syndication feed item, as plain values:
/// the published time is carried as epoch seconds.
pub struct FeedItem {
    pub title: Option<String>,
    pub published: Option<i64>,
    pub links: Vec<String>,
    pub summary: Option<String>,
}

/// One display-ready news entry.
pub struct NewsEntry {
    pub title: String,
    pub date: String,
    pub link: String,
    pub summary: String,
}

pub open spec fn title_sentinel() -> Seq<char> {
    "title reading error"@
}

pub open spec fn feed_time_sentinel() -> Seq<char> {
    "time reading error"@
}

pub open spec fn link_sentinel() -> Seq<char> {
    "link reading error"@
}

pub open spec fn summary_sentinel() -> Seq<char> {
    "summary reading error"@
}

pub open spec fn entry_title(item: FeedItem) -> Seq<char> {
    match item.title {
        Some(t) => t@,
        None => title_sentinel(),
    }
}

pub open spec fn entry_date(item: FeedItem) -> Seq<char> {
    match item.published {
        Some(e) => if 0 <= e < MAX_EPOCH_SECS {
            spec_date_chars(e as int)
        } else {
            feed_time_sentinel()
        },
        None => feed_time_sentinel(),
    }
}

pub open spec fn entry_link(item: FeedItem) -> Seq<char> {
    if item.links@.len() > 0 {
        item.links@[0]@
    } else {
        link_sentinel()
    }
}

pub open spec fn entry_summary(item: FeedItem) -> Seq<char> {
    match item.summary {
        Some(t) => t@,
        None => summary_sentinel(),
    }
}

/// The entry that one feed item yields: every field populated from the item
/// when present, its sentinel when absent.
pub open spec fn entry_ok(item: FeedItem, e: NewsEntry) -> bool {
    &&& e.title@ == entry_title(item)
    &&& e.date@ == entry_date(item)
    &&& e.link@ == entry_link(item)
    &&& e.summary@ == entry_summary(item)
}

/// All entries of a feed, in feed order, one per item.
pub open spec fn news_entries_ok(items: Seq<FeedItem>, entries: Seq<NewsEntry>) -> bool {
    &&& entries.len() == items.len()
    &&& forall|i: int| 0 <= i < items.len() ==> entry_ok(items[i], #[trigger] entries[i])
}

/// Builds the entry of one feed item, as `entry_ok` describes.
pub fn feed_item_to_entry(item: &FeedItem) -> (e: NewsEntry)
    ensures
        entry_ok(*item, e),
{
    let title: String = match &item.title {
        Some(t) => t.clone(),
        None => "title reading error".to_owned(),
    };
    let date: String = match &item.published {
        Some(epoch) => match epoch_to_date_string(*epoch) {
            Some(s) => s,
            None => "time reading error".to_owned(),
        },
        None => "time reading error".to_owned(),
    };
    let link: String = if item.links.len() > 0 {
        item.links[0].clone()
    } else {
        "link reading error".to_owned()
    };
    let summary: String = match &item.summary {
        Some(t) => t.clone(),
        None => "summary reading error".to_owned(),
    };
    NewsEntry { title, date, link, summary }
}

/// Builds the entries of all feed items, as `news_entries_ok` describes.
#[verifier::loop_isolation(false)]
pub fn rss_entries_from_items(items: &Vec<FeedItem>) -> (entries: Vec<NewsEntry>)
    ensures
        news_entries_ok(items@, entries@),
{
    let mut entries: Vec<NewsEntry> = Vec::new();
    let mut i: usize = 0;
    while i < items.len()
        invariant
            i <= items@.len(),
            entries@.len() == i,
            forall|k: int| 0 <= k < i ==> entry_ok(items@[k], #[trigger] entries@[k]),
        decreases items@.len() - i,
    {
        entries.push(feed_item_to_entry(&items[i]));
        i = i + 1;
    }
    entries
}

} // verus!
