use homevoice::news::{news_items_from_feed, FeedDate, NewsSource, RssNewsSource};

const FEED: &str = r#"<?xml version="1.0" encoding="UTF-8"?>
<rss version="2.0">
  <channel>
    <title>Example</title>
    <link>http://example.org</link>
    <description>An example feed</description>
    <item>
      <title>First story</title>
      <description>Something happened</description>
      <pubDate>Tue, 01 Jan 2019 00:00:00 +0000</pubDate>
    </item>
    <item>
      <title>Second story</title>
    </item>
    <item>
      <description>No title here</description>
      <pubDate>not a date</pubDate>
    </item>
  </channel>
</rss>"#;

#[test]
fn feed_bytes_become_news_items() {
    let items = news_items_from_feed("Example", FEED.as_bytes()).expect("feed should parse");
    assert_eq!(items.len(), 3);

    assert_eq!(items[0].source, "Example");
    assert_eq!(items[0].title.as_deref(), Some("First story"));
    assert_eq!(items[0].description.as_deref(), Some("Something happened"));
    // Midnight on 2019-01-01 UTC.
    assert_eq!(
        items[0].pub_date,
        Some(FeedDate { timestamp_secs: 1_546_300_800, offset_secs: 0 })
    );

    assert_eq!(items[1].source, "Example");
    assert_eq!(items[1].title.as_deref(), Some("Second story"));
    assert_eq!(items[1].description, None);
    assert_eq!(items[1].pub_date, None);

    assert_eq!(items[2].title, None);
    assert_eq!(items[2].description.as_deref(), Some("No title here"));
    // A date the date parser rejects is dropped, not an error.
    assert_eq!(items[2].pub_date, None);
}

#[test]
fn feed_offset_is_kept() {
    let feed = r#"<rss version="2.0"><channel><title>t</title><link>l</link><description>d</description>
      <item><title>x</title><pubDate>Tue, 01 Jan 2019 05:30:00 +0530</pubDate></item>
    </channel></rss>"#;
    let items = news_items_from_feed("t", feed.as_bytes()).expect("feed should parse");
    // 05:30 at +05:30 is midnight UTC; the offset is five and a half hours.
    assert_eq!(
        items[0].pub_date,
        Some(FeedDate { timestamp_secs: 1_546_300_800, offset_secs: 5 * 3600 + 30 * 60 })
    );
}

#[test]
fn malformed_document_yields_nothing() {
    assert!(news_items_from_feed("x", b"this is not xml at all").is_none());
    assert!(news_items_from_feed("x", b"<html><body>hi</body></html>").is_none());
}

#[test]
fn feed_urls_and_labels() {
    assert_eq!(
        RssNewsSource::NPR.get_url(),
        "http://www.npr.org/rss/rss.php?id=1001"
    );
    assert_eq!(
        RssNewsSource::BBC.get_url(),
        "http://newsrss.bbc.co.uk/rss/newsonline_world_edition/americas/rss.xml"
    );
    let custom = RssNewsSource::Custom("Mine".to_string(), "http://example.org/rss".to_string());
    assert_eq!(custom.get_url(), "http://example.org/rss");
    assert_eq!(custom.label(), "Mine");
    assert_eq!(RssNewsSource::NPR.label(), "NPR");
    assert_eq!(RssNewsSource::BBC.label(), "BBC");

    let source = NewsSource::Rss(RssNewsSource::NPR);
    match source {
        NewsSource::Rss(rss) => assert_eq!(rss.label(), "NPR"),
    }
}
