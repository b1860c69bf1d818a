//! News sources and the news service.
//!
//! A news source is an RSS feed; fetching its document is the embedder's
//! network edge, but reading the fetched bytes into news items is done here,
//! against the rss and chrono crates behind stated contracts.

use vstd::prelude::*;

use crate::service::Service;
use crate::settings::NewsSettings;

verus! {

/// The RSS feeds the service knows: two built-in ones and custom feeds
/// given by a display name and a URL.
#[derive(Clone, Debug)]
pub enum RssNewsSource {
    NPR,
    BBC,
    Custom(String, String),
}

impl RssNewsSource {
    /// The URL this feed is fetched from.
    pub open spec fn spec_url(&self) -> Seq<char> {
        match self {
            RssNewsSource::NPR => "http://www.npr.org/rss/rss.php?id=1001"@,
            RssNewsSource::BBC =>
                "http://newsrss.bbc.co.uk/rss/newsonline_world_edition/americas/rss.xml"@,
            RssNewsSource::Custom(_, url) => url@,
        }
    }

    /// The URL this feed is fetched from.
    pub fn get_url(&self) -> (r: String)
        ensures
            r@ == self.spec_url(),
    {
        match self {
            RssNewsSource::NPR => "http://www.npr.org/rss/rss.php?id=1001".to_owned(),
            RssNewsSource::BBC =>
                "http://newsrss.bbc.co.uk/rss/newsonline_world_edition/americas/rss.xml"
                .to_owned(),
            RssNewsSource::Custom(_, url) => url.clone(),
        }
    }

    /// The name items of this feed carry as their source.
    pub open spec fn spec_label(&self) -> Seq<char> {
        match self {
            RssNewsSource::NPR => "NPR"@,
            RssNewsSource::BBC => "BBC"@,
            RssNewsSource::Custom(name, _) => name@,
        }
    }

    /// The name items of this feed carry as their source.
    pub fn label(&self) -> (r: String)
        ensures
            r@ == self.spec_label(),
    {
        match self {
            RssNewsSource::NPR => "NPR".to_owned(),
            RssNewsSource::BBC => "BBC".to_owned(),
            RssNewsSource::Custom(name, _) => name.clone(),
        }
    }
}

/// Where news comes from.
#[derive(Clone, Debug)]
pub enum NewsSource {
    Rss(RssNewsSource),
}

/// A publication date: Unix seconds and the feed's UTC offset in seconds.
#[derive(Clone, Copy, Debug, PartialEq, Eq, Structural)]
pub struct FeedDate {
    pub timestamp_secs: i64,
    pub offset_secs: i32,
}

/// One news item, as handed to the front end.
#[derive(Clone, Debug)]
pub struct NewsItem {
    pub source: String,
    pub title: Option<String>,
    pub description: Option<String>,
    pub pub_date: Option<FeedDate>,
}

// ---------------------------------------------------------------------------
// Reading a fetched feed document.
// ---------------------------------------------------------------------------

/// What an RSS document holds: for each item, its title, description and
/// publication-date text; or nothing when the document is not a feed.
pub uninterp spec fn feed_entries_of(bytes: Seq<u8>) -> Option<
    Seq<(Option<Seq<char>>, Option<Seq<char>>, Option<Seq<char>>)>,
>;

/// The view of a vector of feed entries.
pub open spec fn entry_views(v: Seq<(Option<String>, Option<String>, Option<String>)>) -> Seq<
    (Option<Seq<char>>, Option<Seq<char>>, Option<Seq<char>>),
> {
    v.map_values(
        |e: (Option<String>, Option<String>, Option<String>)|
            (str_opt_view(e.0), str_opt_view(e.1), str_opt_view(e.2)),
    )
}

pub open spec fn str_opt_view(x: Option<String>) -> Option<Seq<char>> {
    match x {
        Some(s) => Some(s@),
        None => None,
    }
}

/// Relies on rss::Channel::read_from: parses an RSS document and yields each
/// item's title, description and publication date, in document order.  The
/// outcome is a function of the bytes alone; a document the crate rejects
/// yields nothing.
#[verifier::external_body]
fn read_feed_entries(bytes: &[u8]) -> (r: Option<
    Vec<(Option<String>, Option<String>, Option<String>)>,
>)
    ensures
        match r {
            Some(v) => feed_entries_of(bytes@) == Some(entry_views(v@)),
            None => feed_entries_of(bytes@) is None,
        },
{
    match rss::Channel::read_from(bytes) {
        Ok(channel) => Some(
            channel
                .items
                .into_iter()
                .map(|item| (item.title, item.description, item.pub_date))
                .collect(),
        ),
        Err(_) => None,
    }
}

/// A date parsed out of RFC 2822 text: Unix seconds and UTC offset seconds;
/// or nothing when the text is not such a date.
pub uninterp spec fn rfc2822_of(s: Seq<char>) -> Option<(i64, i32)>;

/// Relies on chrono::DateTime::parse_from_rfc2822, DateTime::timestamp and
/// FixedOffset::local_minus_utc: reads RFC 2822 date text as Unix seconds
/// and a UTC offset in seconds.  The outcome is a function of the text
/// alone; text the crate rejects yields nothing.
#[verifier::external_body]
fn parse_rfc2822(s: &str) -> (r: Option<(i64, i32)>)
    ensures
        r == rfc2822_of(s@),
{
    match chrono::DateTime::parse_from_rfc2822(s) {
        Ok(dt) => Some((dt.timestamp(), dt.offset().local_minus_utc())),
        Err(_) => None,
    }
}

/// The date a feed entry's date text stands for, if it parses.
pub open spec fn spec_entry_date(ds: Option<Seq<char>>) -> Option<FeedDate> {
    match ds {
        None => None,
        Some(text) => match rfc2822_of(text) {
            Some(to) => Some(FeedDate { timestamp_secs: to.0, offset_secs: to.1 }),
            None => None,
        },
    }
}

/// The news item a feed entry becomes, under a source name.
pub open spec fn spec_entry_item(
    source: Seq<char>,
    e: (Option<Seq<char>>, Option<Seq<char>>, Option<Seq<char>>),
    item: NewsItem,
) -> bool {
    &&& item.source@ == source
    &&& str_opt_view(item.title) == e.0
    &&& str_opt_view(item.description) == e.1
    &&& item.pub_date == spec_entry_date(e.2)
}

/// Reads a fetched RSS document into news items carrying `source_name`.
/// Yields one item per feed entry, in order; yields nothing exactly when the
/// document is not a feed.
pub fn news_items_from_feed(source_name: &str, bytes: &[u8]) -> (r: Option<Vec<NewsItem>>)
    ensures
        match feed_entries_of(bytes@) {
            None => r is None,
            Some(entries) => match r {
                Some(items) => items@.len() == entries.len() && (forall|i: int|
                    0 <= i < entries.len() ==> spec_entry_item(
                        source_name@,
                        entries[i],
                        #[trigger] items@[i],
                    )),
                None => false,
            },
        },
{
    let mut entries = match read_feed_entries(bytes) {
        Some(v) => v,
        None => {
            return None;
        },
    };
    let ghost all = entry_views(entries@);
    let mut items: Vec<NewsItem> = Vec::new();
    proof {
        assert(all.skip(0) =~= all);
    }
    while entries.len() > 0
        invariant
            all.len() == items@.len() + entries@.len(),
            entry_views(entries@) == all.skip(items@.len() as int),
            forall|i: int|
                0 <= i < items@.len() ==> spec_entry_item(
                    source_name@,
                    all[i],
                    #[trigger] items@[i],
                ),
        decreases entries.len(),
    {
        let ghost pre = entries@;
        let e = entries.remove(0);
        proof {
            assert(entry_views(entries@) =~= entry_views(pre).drop_first());
            assert(entry_views(pre).drop_first() =~= all.skip(items@.len() as int + 1));
            assert(entry_views(pre)[0] == all[items@.len() as int]);
        }
        let pub_date = match &e.2 {
            Some(ds) => match parse_rfc2822(ds.as_str()) {
                Some(to) => Some(FeedDate { timestamp_secs: to.0, offset_secs: to.1 }),
                None => None,
            },
            None => None,
        };
        let item = NewsItem {
            source: source_name.to_owned(),
            title: e.0,
            description: e.1,
            pub_date,
        };
        items.push(item);
    }
    proof {
        assert(entry_views(entries@).len() == 0);
    }
    Some(items)
}

// ---------------------------------------------------------------------------
// The news service.
// ---------------------------------------------------------------------------

/// The news service: which feeds it polls and how often.  Polling itself is
/// the embedder's network edge; it fetches each source's URL and hands the
/// bytes to `news_items_from_feed`.
#[derive(Clone)]
pub struct NewsService {
    pub news_sources: Vec<NewsSource>,
    pub polling_rate: u64,
}

impl NewsService {
    /// A news service over the configured sources and rate.
    pub fn new(settings: NewsSettings) -> (s: Self)
        ensures
            s.news_sources@ == settings.news_sources@,
            s.polling_rate == settings.polling_rate as u64,
    {
        let polling_rate: u64 = settings.polling_rate as u64;
        NewsService { news_sources: settings.news_sources, polling_rate }
    }

    /// The name news results are filed under.
    pub fn get_name() -> (r: String)
        ensures
            r@ == "News"@,
    {
        "News".to_owned()
    }
}

impl Service for NewsService {
    fn get_service_name(&self) -> String {
        NewsService::get_name()
    }

    fn get_polling_rate(&self) -> u64 {
        self.polling_rate
    }
}

} // verus!
