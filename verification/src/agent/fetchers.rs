//! What the fetchers decide once the bytes are in: which entries of a feed
//! become items, and which exchange endpoints a derivatives reading reads.
use vstd::prelude::*;

use crate::agent::config::RssSource;
use crate::agent::feed_guard::{feed_is_safe, feed_safe, hide_extensions, hide_extensions_spec};
use crate::agent::ingest::RawItem;

verus! {

/// One entry of a parsed RSS, Atom or JSON feed, reduced to what ingest reads.
pub struct FeedEntry {
    /// The entry's title text.
    pub title: Option<String>,
    /// The targets of the entry's links, in document order.
    pub links: Vec<String>,
    /// When the entry was first published, RFC 3339.
    pub published: Option<String>,
    /// When the entry was last modified, RFC 3339.
    pub updated: Option<String>,
    /// The body of the entry's full content (`<content:encoded>` / `<content>`).
    pub content: Option<String>,
    /// The entry's summary text.
    pub summary: Option<String>,
}

/// The text of an optional string, if any.
pub open spec fn opt_text(o: Option<String>) -> Option<Seq<char>> {
    match o {
        Some(s) => Some(s@),
        None => None,
    }
}

/// An entry as plain values: title, links, published, updated, content,
/// summary.
pub open spec fn entry_view(e: FeedEntry) -> (
    Option<Seq<char>>,
    Seq<Seq<char>>,
    Option<Seq<char>>,
    Option<Seq<char>>,
    Option<Seq<char>>,
    Option<Seq<char>>,
) {
    (
        opt_text(e.title),
        e.links@.map_values(|l: String| l@),
        opt_text(e.published),
        opt_text(e.updated),
        opt_text(e.content),
        opt_text(e.summary),
    )
}

/// The entries `feed_rs` parses from a feed document, as [`entry_view`]s, or
/// `None` when it cannot parse the bytes as a feed.
pub uninterp spec fn feed_entries(bytes: Seq<u8>) -> Option<
    Seq<
        (
            Option<Seq<char>>,
            Seq<Seq<char>>,
            Option<Seq<char>>,
            Option<Seq<char>>,
            Option<Seq<char>>,
            Option<Seq<char>>,
        ),
    >,
>;

/// `feed_rs::parser::parse`: the feed's entries, each reduced to a
/// [`FeedEntry`] (timestamps written in RFC 3339), or the parse error's text.
/// Which message an error carries is not stated. The bytes must be
/// [`feed_safe`]: that rules out the inputs on which the parser panics (the
/// time values of the Media RSS and iTunes extensions, an author's e-mail
/// address next to a multi-byte char, an encoding switch after the reader's
/// first 64 bytes).
#[verifier::external_body]
fn parse_feed(bytes: &[u8]) -> (r: Result<Vec<FeedEntry>, String>)
    requires
        feed_safe(bytes@),
    ensures
        r is Ok <==> feed_entries(bytes@) is Some,
        r matches Ok(v) ==> feed_entries(bytes@) == Some(v@.map_values(|e: FeedEntry| entry_view(e))),
{
    let feed = feed_rs::parser::parse(bytes).map_err(|e| e.to_string())?;
    Ok(feed.entries.into_iter().map(|e| FeedEntry {
        title: e.title.map(|t| t.content),
        links: e.links.into_iter().map(|l| l.href).collect(),
        published: e.published.map(|d| d.to_rfc3339()),
        updated: e.updated.map(|d| d.to_rfc3339()),
        content: e.content.and_then(|c| c.body),
        summary: e.summary.map(|s| s.content),
    }).collect())
}

/// The item a feed entry becomes, as (title, url, published, content,
/// summary): it needs a title and a link (the first one is the article's
/// URL); it is dated by when it was published, else last modified, else
/// `now`.
pub open spec fn item_spec(
    e: (
        Option<Seq<char>>,
        Seq<Seq<char>>,
        Option<Seq<char>>,
        Option<Seq<char>>,
        Option<Seq<char>>,
        Option<Seq<char>>,
    ),
    now: Seq<char>,
) -> Option<(Seq<char>, Seq<char>, Seq<char>, Option<Seq<char>>, Option<Seq<char>>)> {
    match e.0 {
        Some(title) => if e.1.len() > 0 {
            Some(
                (
                    title,
                    e.1[0],
                    match e.2 {
                        Some(p) => p,
                        None => match e.3 {
                            Some(u) => u,
                            None => now,
                        },
                    },
                    e.4,
                    e.5,
                ),
            )
        } else {
            None
        },
        None => None,
    }
}

/// The items of a feed's entries, in order, skipping those without a title
/// or a link.
pub open spec fn items_spec(
    entries: Seq<
        (
            Option<Seq<char>>,
            Seq<Seq<char>>,
            Option<Seq<char>>,
            Option<Seq<char>>,
            Option<Seq<char>>,
            Option<Seq<char>>,
        ),
    >,
    now: Seq<char>,
) -> Seq<(Seq<char>, Seq<char>, Seq<char>, Option<Seq<char>>, Option<Seq<char>>)>
    decreases entries.len(),
{
    if entries.len() == 0 {
        seq![]
    } else {
        let rest = items_spec(entries.drop_last(), now);
        match item_spec(entries.last(), now) {
            Some(x) => rest.push(x),
            None => rest,
        }
    }
}

/// The fields of an item that come from its feed entry, as (title, url,
/// published, content, summary); its source and category come from the feed
/// and are stated beside this view wherever items are made.
pub open spec fn raw_view(r: RawItem) -> (Seq<char>, Seq<char>, Seq<char>, Option<Seq<char>>, Option<Seq<char>>) {
    (r.title@, r.url@, r.published_at@, opt_text(r.content), opt_text(r.summary))
}

fn copy_opt(o: &Option<String>) -> (r: Option<String>)
    ensures
        opt_text(r) == opt_text(*o),
{
    match o {
        Some(s) => Some(s.clone()),
        None => None,
    }
}

/// Turn one feed entry into an item from `source`, or `None` when it lacks a
/// title or a link.
pub fn entry_item(e: &FeedEntry, source: &RssSource, now: &str) -> (r: Option<RawItem>)
    ensures
        match r {
            Some(item) => item_spec(entry_view(*e), now@) == Some(raw_view(item)) && item.source@
                == source.name@ && item.category == source.category,
            None => item_spec(entry_view(*e), now@) is None,
        },
{
    let title = match &e.title {
        Some(t) => t.clone(),
        None => {
            return None;
        },
    };
    if e.links.len() == 0 {
        return None;
    }
    let url = e.links[0].clone();
    let published_at = match &e.published {
        Some(p) => p.clone(),
        None => match &e.updated {
            Some(u) => u.clone(),
            None => String::from_str(now),
        },
    };
    Some(
        RawItem {
            title,
            url,
            source: source.name.clone(),
            category: source.category,
            summary: copy_opt(&e.summary),
            content: copy_opt(&e.content),
            published_at,
        },
    )
}

/// The error for a feed whose bytes are not [`feed_safe`].
pub open spec fn unsafe_feed_error() -> Seq<char> {
    "feed not read: its bytes fall outside what the feed parser handles safely"@
}

/// Parse a fetched RSS/Atom/JSON feed from `source` into items, skipping
/// entries without a title or a link; undated entries are dated `now`. The
/// Media RSS and iTunes namespaces are hidden first (their elements are not
/// read); the result must then be [`feed_safe`], else the feed is refused.
/// Otherwise it fails exactly when the bytes are not a feed `feed_rs` can
/// parse.
pub fn parse_rss(bytes: &[u8], source: &RssSource, now: &str) -> (r: Result<Vec<RawItem>, String>)
    ensures
        !feed_safe(hide_extensions_spec(bytes@)) ==> (r matches Err(m) && m@ == unsafe_feed_error()),
        r is Ok <==> feed_safe(hide_extensions_spec(bytes@)) && feed_entries(hide_extensions_spec(bytes@)) is Some,
        r matches Ok(items) ==> items@.map_values(|i: RawItem| raw_view(i)) == items_spec(
            feed_entries(hide_extensions_spec(bytes@))->0,
            now@,
        ) && forall|k: int|
            0 <= k < items@.len() ==> (#[trigger] items@[k]).source@ == source.name@ && items@[k].category
                == source.category,
{
    let hidden = hide_extensions(bytes);
    if !feed_is_safe(&hidden) {
        return Err(String::from_str("feed not read: its bytes fall outside what the feed parser handles safely"));
    }
    let entries = match parse_feed(&hidden) {
        Ok(v) => v,
        Err(m) => {
            return Err(m);
        },
    };
    let ghost ev = entries@.map_values(|e: FeedEntry| entry_view(e));
    let mut items: Vec<RawItem> = Vec::new();
    let mut i: usize = 0;
    while i < entries.len()
        invariant
            i <= entries.len(),
            ev == entries@.map_values(|e: FeedEntry| entry_view(e)),
            items@.map_values(|x: RawItem| raw_view(x)) == items_spec(ev.take(i as int), now@),
            forall|k: int|
                0 <= k < items@.len() ==> (#[trigger] items@[k]).source@ == source.name@ && items@[k].category
                    == source.category,
        decreases entries.len() - i,
    {
        let ghost before = items@;
        assert(ev.take(i + 1).drop_last() == ev.take(i as int));
        assert(ev.take(i + 1).last() == entry_view(entries@[i as int]));
        match entry_item(&entries[i], source, now) {
            Some(item) => {
                items.push(item);
                assert(items@.map_values(|x: RawItem| raw_view(x)) =~= before.map_values(|x: RawItem| raw_view(x)).push(raw_view(item)));
            },
            None => {},
        }
        i += 1;
    }
    assert(ev.take(entries.len() as int) == ev);
    Ok(items)
}

/// A feed entry becomes an item exactly when it has a title and at least one
/// link; the item then carries the entry's title, its first link as the URL,
/// its content and summary unchanged, and is dated by the entry's published
/// time, else its updated time, else `now`.
pub proof fn law_item_keeps_entry(
    e: (
        Option<Seq<char>>,
        Seq<Seq<char>>,
        Option<Seq<char>>,
        Option<Seq<char>>,
        Option<Seq<char>>,
        Option<Seq<char>>,
    ),
    now: Seq<char>,
)
    ensures
        item_spec(e, now) is Some <==> (e.0 is Some && e.1.len() > 0),
        item_spec(e, now) matches Some(it) ==> {
            &&& Some(it.0) == e.0
            &&& it.1 == e.1[0]
            &&& it.3 == e.4
            &&& it.4 == e.5
            &&& (e.2 matches Some(p) ==> it.2 == p)
            &&& (e.2 is None ==> (e.3 matches Some(u) ==> it.2 == u))
            &&& (e.2 is None && e.3 is None ==> it.2 == now)
        },
{
}

/// The items of a feed are its usable entries' items, in order: a feed whose
/// entries all have a title and a link gives one item per entry, each
/// carrying its entry's content unchanged.
pub proof fn law_items_follow_entries(
    entries: Seq<
        (
            Option<Seq<char>>,
            Seq<Seq<char>>,
            Option<Seq<char>>,
            Option<Seq<char>>,
            Option<Seq<char>>,
            Option<Seq<char>>,
        ),
    >,
    now: Seq<char>,
)
    requires
        forall|k: int| 0 <= k < entries.len() ==> (#[trigger] entries[k]).0 is Some && entries[k].1.len() > 0,
    ensures
        items_spec(entries, now).len() == entries.len(),
        forall|k: int| 0 <= k < entries.len() ==> (#[trigger] items_spec(entries, now)[k]).3 == entries[k].4
            && Some(items_spec(entries, now)[k].0) == entries[k].0 && items_spec(entries, now)[k].1 == entries[k].1[0],
    decreases entries.len(),
{
    if entries.len() > 0 {
        let init = entries.drop_last();
        law_items_follow_entries(init, now);
        law_item_keeps_entry(entries.last(), now);
        assert(init.len() == entries.len() - 1);
        assert forall|k: int| 0 <= k < entries.len() implies (#[trigger] items_spec(entries, now)[k]).3 == entries[k].4
            && Some(items_spec(entries, now)[k].0) == entries[k].0 && items_spec(entries, now)[k].1 == entries[k].1[0] by {
            if k < init.len() {
                assert(entries[k] == init[k]);
                assert(items_spec(entries, now)[k] == items_spec(init, now)[k]);
            }
        }
    }
}

/// The exchange's public futures API.
pub const FAPI_BASE: &'static str = "https://fapi.binance.com";

/// The five endpoints one derivatives reading of a symbol reads.
pub struct DerivativeUrls {
    /// Open interest.
    pub open_interest: String,
    /// Premium index: mark price, funding rate, next funding time.
    pub premium_index: String,
    /// Global long/short account ratio over the stats period.
    pub long_short: String,
    /// Taker buy/sell volume over the stats period.
    pub taker: String,
    /// Top-trader long/short position ratio over the stats period.
    pub top_trader: String,
}

/// `base` + `path` + `?symbol=` + the symbol.
pub open spec fn symbol_url(path: Seq<char>, symbol: Seq<char>) -> Seq<char> {
    "https://fapi.binance.com"@ + path + "?symbol="@ + symbol
}

/// A stats-series URL: the latest point of the series over `period`.
pub open spec fn series_url(path: Seq<char>, symbol: Seq<char>, period: Seq<char>) -> Seq<char> {
    symbol_url(path, symbol) + "&period="@ + period + "&limit=1"@
}

/// The endpoints one derivatives reading of `symbol` reads, the series over
/// `period`.
pub fn derivative_urls(symbol: &str, period: &str) -> (u: DerivativeUrls)
    ensures
        u.open_interest@ == symbol_url("/fapi/v1/openInterest"@, symbol@),
        u.premium_index@ == symbol_url("/fapi/v1/premiumIndex"@, symbol@),
        u.long_short@ == series_url("/futures/data/globalLongShortAccountRatio"@, symbol@, period@),
        u.taker@ == series_url("/futures/data/takerlongshortRatio"@, symbol@, period@),
        u.top_trader@ == series_url("/futures/data/topLongShortPositionRatio"@, symbol@, period@),
{
    let open_interest = String::from_str(FAPI_BASE).concat("/fapi/v1/openInterest").concat("?symbol=").concat(symbol);
    let premium_index = String::from_str(FAPI_BASE).concat("/fapi/v1/premiumIndex").concat("?symbol=").concat(symbol);
    let long_short = String::from_str(FAPI_BASE).concat("/futures/data/globalLongShortAccountRatio").concat("?symbol=").concat(
        symbol,
    ).concat("&period=").concat(period).concat("&limit=1");
    let taker = String::from_str(FAPI_BASE).concat("/futures/data/takerlongshortRatio").concat("?symbol=").concat(symbol).concat(
        "&period=",
    ).concat(period).concat("&limit=1");
    let top_trader = String::from_str(FAPI_BASE).concat("/futures/data/topLongShortPositionRatio").concat("?symbol=").concat(
        symbol,
    ).concat("&period=").concat(period).concat("&limit=1");
    DerivativeUrls { open_interest, premium_index, long_short, taker, top_trader }
}

/// Whether a premium index's next funding time (epoch millis) names a
/// settlement: 0 means none is scheduled, so it is left absent rather than
/// read as the epoch.
pub fn next_funding_scheduled(millis: i64) -> (r: bool)
    ensures
        r == (millis > 0),
{
    millis > 0
}

/// Whether a derivatives reading is worth storing: at least one endpoint
/// (open interest, mark price, funding rate, long/short, taker volume,
/// top-trader ratio) answered. A symbol where every one failed is skipped.
pub fn reading_has_data(
    open_interest: bool,
    mark_price: bool,
    funding_rate: bool,
    long_short: bool,
    taker: bool,
    top_trader: bool,
) -> (r: bool)
    ensures
        r == (open_interest || mark_price || funding_rate || long_short || taker || top_trader),
{
    open_interest || mark_price || funding_rate || long_short || taker || top_trader
}

} // verus!
