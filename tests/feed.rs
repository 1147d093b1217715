use newscheck::feed::{
    entries_from_items, parse_entries, Entry, FeedError, FeedItem, Timestamp, MAX_UNIX_SECS,
    MIN_UNIX_SECS,
};

const FEB_18_2015: i64 = 1424301369;

fn entry(title: &str, body: &str, secs: i64, nanos: u32) -> Entry {
    Entry::new(title.to_string(), body.to_string(), Timestamp::from_unix(secs, nanos).unwrap())
}

#[test]
fn digest_is_md5_of_title_and_rfc3339_time() {
    let e = entry("Arch news", "<p>body</p>", FEB_18_2015, 0);
    assert_eq!(
        e.digest(),
        [160, 14, 240, 30, 216, 194, 126, 223, 167, 157, 3, 88, 197, 169, 242, 236]
    );
}

#[test]
fn digest_renders_subsecond_part() {
    let e = entry("Nanos", "", FEB_18_2015, 500_000_000);
    assert_eq!(
        e.digest(),
        [66, 21, 23, 129, 191, 116, 60, 134, 237, 197, 151, 23, 195, 85, 236, 220]
    );
}

#[test]
fn digest_is_deterministic_and_ignores_body() {
    let a = entry("Arch news", "first body", FEB_18_2015, 0);
    let b = entry("Arch news", "another body", FEB_18_2015, 0);
    assert_eq!(a.digest(), a.digest());
    assert_eq!(a.digest(), b.digest());
    assert_eq!(a.clone().digest(), a.digest());
}

#[test]
fn digest_differs_for_other_title_or_time() {
    let a = entry("Arch news", "", FEB_18_2015, 0);
    let b = entry("Other", "", FEB_18_2015, 0);
    let c = entry("Arch news", "", FEB_18_2015 + 1, 0);
    assert_eq!(
        b.digest(),
        [142, 149, 157, 131, 209, 238, 18, 166, 249, 203, 222, 158, 89, 126, 207, 53]
    );
    assert_eq!(
        c.digest(),
        [29, 34, 99, 184, 79, 8, 158, 243, 114, 29, 92, 168, 237, 24, 188, 54]
    );
    assert_ne!(a.digest(), b.digest());
    assert_ne!(a.digest(), c.digest());
    assert_ne!(b.digest(), c.digest());
}

#[test]
fn timestamp_range_and_leap_seconds() {
    assert!(Timestamp::from_unix(MIN_UNIX_SECS, 0).is_some());
    assert!(Timestamp::from_unix(MIN_UNIX_SECS - 1, 0).is_none());
    assert!(Timestamp::from_unix(MAX_UNIX_SECS, 999_999_999).is_some());
    assert!(Timestamp::from_unix(MAX_UNIX_SECS + 1, 0).is_none());
    assert!(Timestamp::from_unix(59, 1_500_000_000).is_some());
    assert!(Timestamp::from_unix(58, 1_000_000_000).is_none());
    assert!(Timestamp::from_unix(-1, 1_000_000_000).is_some());
    assert!(Timestamp::from_unix(-2, 1_000_000_000).is_none());
    assert!(Timestamp::from_unix(59, 2_000_000_000).is_none());
    let t = Timestamp::from_unix(-5, 7).unwrap();
    assert_eq!((t.secs(), t.nanos()), (-5, 7));
}

#[test]
fn from_fields_reads_rfc2822_date() {
    let e = Entry::from_fields(Some("Title"), Some("Body"), Some("Wed, 18 Feb 2015 23:16:09 GMT"))
        .unwrap();
    assert_eq!(e.title, "Title");
    assert_eq!(e.body, "Body");
    assert_eq!(e.timestamp.secs(), FEB_18_2015);
    assert_eq!(e.timestamp.nanos(), 0);
    let shifted =
        Entry::from_fields(Some("T"), Some("B"), Some("Thu, 19 Feb 2015 01:16:09 +0200")).unwrap();
    assert_eq!(shifted.timestamp.secs(), FEB_18_2015);
}

#[test]
fn from_fields_reports_missing_or_bad_fields_in_order() {
    let date = Some("Wed, 18 Feb 2015 23:16:09 GMT");
    assert!(matches!(Entry::from_fields(None, None, None), Err(FeedError::MissingTitle)));
    assert!(matches!(Entry::from_fields(Some("t"), None, date), Err(FeedError::MissingBody)));
    assert!(matches!(Entry::from_fields(Some("t"), Some("b"), None), Err(FeedError::MissingDate)));
    assert!(matches!(
        Entry::from_fields(Some("t"), Some("b"), Some("yesterday")),
        Err(FeedError::BadDate(_))
    ));
}

const FEED: &str = r#"<?xml version="1.0" encoding="utf-8"?>
<rss version="2.0"><channel><title>News</title><link>https://example.org/</link><description>d</description>
<item><title>Second</title><description>&lt;p&gt;two&lt;/p&gt;</description><pubDate>Thu, 19 Feb 2015 10:00:00 +0000</pubDate></item>
<item><title>First</title><description>one</description><pubDate>Wed, 18 Feb 2015 23:16:09 GMT</pubDate></item>
</channel></rss>"#;

#[test]
fn parse_entries_keeps_channel_order() {
    let es = parse_entries(FEED.as_bytes()).unwrap();
    assert_eq!(es.len(), 2);
    assert_eq!(es[0].title, "Second");
    assert_eq!(es[0].body, "<p>two</p>");
    assert_eq!(es[1].title, "First");
    assert_eq!(es[1].timestamp.secs(), FEB_18_2015);
}

#[test]
fn parse_entries_rejects_what_is_not_rss() {
    assert!(matches!(parse_entries(b"hello"), Err(FeedError::Malformed(_))));
}

#[test]
fn parse_entries_fails_on_item_without_date() {
    let feed = FEED.replace("<pubDate>Wed, 18 Feb 2015 23:16:09 GMT</pubDate>", "");
    assert!(matches!(parse_entries(feed.as_bytes()), Err(FeedError::MissingDate)));
}

fn item(title: Option<&str>, body: Option<&str>, date: Option<&str>) -> FeedItem {
    FeedItem {
        title: title.map(str::to_string),
        description: body.map(str::to_string),
        pub_date: date.map(str::to_string),
    }
}

#[test]
fn from_rss_item_reads_feed_item() {
    let e = Entry::from_rss_item(&item(Some("T"), Some("B"), Some("Wed, 18 Feb 2015 23:16:09 GMT")))
        .unwrap();
    assert_eq!((e.title.as_str(), e.body.as_str()), ("T", "B"));
    assert_eq!(e.timestamp.secs(), FEB_18_2015);
    assert!(matches!(
        Entry::from_rss_item(&item(Some("T"), None, None)),
        Err(FeedError::MissingBody)
    ));
}

#[test]
fn entries_from_items_keeps_order() {
    let items = vec![
        item(Some("A"), Some("a"), Some("Wed, 18 Feb 2015 23:16:09 GMT")),
        item(Some("B"), Some("b"), Some("Thu, 19 Feb 2015 10:00:00 +0000")),
    ];
    let es = entries_from_items(&items).unwrap();
    assert_eq!(es.len(), 2);
    assert_eq!(es[0].title, "A");
    assert_eq!(es[1].title, "B");
    assert!(entries_from_items(&Vec::new()).unwrap().is_empty());
}

#[test]
fn entries_from_items_reports_first_failing_item() {
    let items = vec![
        item(Some("A"), Some("a"), Some("Wed, 18 Feb 2015 23:16:09 GMT")),
        item(Some("B"), Some("b"), Some("not a date")),
        item(None, None, None),
    ];
    assert!(matches!(entries_from_items(&items), Err(FeedError::BadDate(_))));
}
