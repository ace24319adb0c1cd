use buoya_news_agent::agent::config::{RssSource, TomlConfig};
use buoya_news_agent::agent::db::{decode_tool_labels, encode_tool_labels, title_from, DEFAULT_SESSION_TITLE};
use buoya_news_agent::agent::fetchers::{
    derivative_urls, next_funding_scheduled, parse_rss, reading_has_data, FAPI_BASE,
};
use buoya_news_agent::agent::ingest::{
    backfill_next, category_name, embed_job, embed_text, ingest_plan, truncate_embed_text, FetchJob, RawItem,
    EMBED_TEXT_MAX_CHARS,
};
use buoya_news_agent::agent::llm::{
    accumulate_tool_calls, after_tools, after_turn, finish_turn, ToolCallAccum, ToolCallDelta,
    TurnOutcome, TurnStep, MAX_TOOL_ROUNDS,
};
use buoya_news_agent::agent::repository::{latest_snapshots, like_pattern, snapshot_sources, SnapshotItem};
use buoya_news_agent::agent::tools::{
    args_text, error_payload, find_tool, no_article_message, plan_call, require_query,
    resolve_limit, symbol_arg, unknown_tool, ToolArgs, ToolKind, ToolQuery,
};
use buoya_news_agent::agent::types::{Category, Role};
use buoya_news_agent::text::{decimal_i64, json_quote};

// --- session titles ---------------------------------------------------------------

#[test]
fn title_takes_trimmed_first_line() {
    assert_eq!(title_from("  What moved BTC today?  \nmore text"), "What moved BTC today?");
}

#[test]
fn title_ignores_later_lines() {
    assert_eq!(title_from("Fed minutes\nand more\nlines"), title_from("Fed minutes"));
}

#[test]
fn title_of_blank_text_is_default() {
    assert_eq!(title_from(""), DEFAULT_SESSION_TITLE);
    assert_eq!(title_from("   \n second line"), "New chat");
}

#[test]
fn long_title_is_cut_with_ellipsis() {
    let text = "a".repeat(45);
    let t = title_from(&text);
    assert_eq!(t.chars().count(), 41);
    assert!(t.ends_with('…'));
    assert_eq!(title_from(&"b".repeat(40)), "b".repeat(40));
}

// --- tool labels stored with a message ---------------------------------------------

#[test]
fn no_tools_store_nothing() {
    assert_eq!(encode_tool_labels(&[]), Ok(None));
    assert!(decode_tool_labels(None).is_empty());
}

#[test]
fn tool_labels_round_trip() {
    let labels = vec!["Searching \"HBAR\"".to_string(), "Market snapshot".to_string()];
    let stored = encode_tool_labels(&labels).unwrap().unwrap();
    assert_eq!(stored, r#"["Searching \"HBAR\"","Market snapshot"]"#);
    assert_eq!(decode_tool_labels(Some(&stored)), labels);
}

#[test]
fn unreadable_labels_read_as_none() {
    assert!(decode_tool_labels(Some("not json")).is_empty());
    assert!(decode_tool_labels(Some("{\"a\":1}")).is_empty());
}

// --- tools ----------------------------------------------------------------------------

#[test]
fn every_tool_is_found_by_its_name() {
    for kind in ToolKind::all() {
        assert_eq!(find_tool(kind.name()), Some(kind));
        assert!(!kind.description().is_empty());
    }
    assert_eq!(find_tool("drop_tables"), None);
    assert_eq!(unknown_tool("drop_tables"), "unknown tool: drop_tables");
}

#[test]
fn tool_names_are_the_advertised_ones() {
    let names: Vec<&str> = ToolKind::all().iter().map(|k| k.name()).collect();
    assert_eq!(
        names,
        vec![
            "semantic_search",
            "search_articles",
            "list_recent_articles",
            "get_article",
            "get_market_snapshot",
            "get_derivatives"
        ]
    );
}

#[test]
fn limits_are_clamped_with_default() {
    assert_eq!(resolve_limit(None), 20);
    assert_eq!(resolve_limit(Some(0)), 1);
    assert_eq!(resolve_limit(Some(-7)), 1);
    assert_eq!(resolve_limit(Some(35)), 35);
    assert_eq!(resolve_limit(Some(500)), 50);
}

#[test]
fn query_is_required_and_not_blank() {
    assert_eq!(require_query(Some("eth etf")), Ok("eth etf"));
    assert_eq!(require_query(Some("   ")), Err("missing required `query` argument".to_string()));
    assert_eq!(require_query(None), Err("missing required `query` argument".to_string()));
}

#[test]
fn symbol_is_trimmed_and_blank_is_absent() {
    assert_eq!(symbol_arg(Some(" HBARUSDT ")), Some("HBARUSDT".to_string()));
    assert_eq!(symbol_arg(Some("  ")), None);
    assert_eq!(symbol_arg(None), None);
}

#[test]
fn blank_argument_text_means_no_arguments() {
    assert_eq!(args_text(""), None);
    assert_eq!(args_text(" \n "), None);
    assert_eq!(args_text(" {\"q\":1} "), Some("{\"q\":1}".to_string()));
    assert!(ToolKind::SearchArticles.reads_arguments());
    assert!(!ToolKind::GetMarketSnapshot.reads_arguments());
}

#[test]
fn plan_checks_each_tools_arguments() {
    let mut args = ToolArgs::empty();
    assert_eq!(
        plan_call(ToolKind::SemanticSearch, &args).err(),
        Some("missing required `query` argument".to_string())
    );
    assert_eq!(
        plan_call(ToolKind::GetArticle, &args).err(),
        Some("missing required integer `id` argument".to_string())
    );
    assert!(matches!(plan_call(ToolKind::GetMarketSnapshot, &args), Ok(ToolQuery::MarketSnapshot)));
    assert!(matches!(plan_call(ToolKind::GetDerivatives, &args), Ok(ToolQuery::LatestDerivatives)));
    match plan_call(ToolKind::ListRecentArticles, &args) {
        Ok(ToolQuery::ListRecent { category, limit }) => {
            assert_eq!(category, None);
            assert_eq!(limit, 20);
        }
        _ => panic!("expected a list query"),
    }

    args.query = Some("hbar".to_string());
    args.limit = Some(99);
    args.id = Some(7);
    args.symbol = Some(" ETHUSDT ".to_string());
    args.category = Some("defi".to_string());
    match plan_call(ToolKind::SearchArticles, &args) {
        Ok(ToolQuery::KeywordSearch { query, limit }) => {
            assert_eq!(query, "hbar");
            assert_eq!(limit, 50);
        }
        _ => panic!("expected a keyword search"),
    }
    match plan_call(ToolKind::SemanticSearch, &args) {
        Ok(ToolQuery::SemanticSearch { query, limit }) => {
            assert_eq!(query, "hbar");
            assert_eq!(limit, 50);
        }
        _ => panic!("expected a semantic search"),
    }
    assert!(matches!(plan_call(ToolKind::GetArticle, &args), Ok(ToolQuery::GetArticle { id: 7 })));
    match plan_call(ToolKind::GetDerivatives, &args) {
        Ok(ToolQuery::DerivativesHistory { symbol, limit }) => {
            assert_eq!(symbol, "ETHUSDT");
            assert_eq!(limit, 50);
        }
        _ => panic!("expected a derivatives history"),
    }
    match plan_call(ToolKind::ListRecentArticles, &args) {
        Ok(ToolQuery::ListRecent { category, .. }) => assert_eq!(category, Some("defi".to_string())),
        _ => panic!("expected a list query"),
    }
}

#[test]
fn failed_calls_answer_with_an_error_object() {
    assert_eq!(error_payload("boom"), r#"{"error":"boom"}"#);
    assert_eq!(error_payload("say \"hi\"\n"), r#"{"error":"say \"hi\"\n"}"#);
    assert_eq!(error_payload(&no_article_message(-12)), r#"{"error":"no article with id -12"}"#);
    assert_eq!(no_article_message(404), "no article with id 404");
}

#[test]
fn decimal_matches_format() {
    for n in [0i64, 7, -7, 10, 99, 100, -100, 1234567890, i64::MAX, i64::MIN] {
        assert_eq!(decimal_i64(n), format!("{n}"));
    }
}

// --- the agent loop ---------------------------------------------------------------

fn delta(index: u32, id: Option<&str>, name: Option<&str>, args: Option<&str>) -> ToolCallDelta {
    ToolCallDelta {
        index,
        id: id.map(str::to_string),
        name: name.map(str::to_string),
        arguments: args.map(str::to_string),
    }
}

#[test]
fn tool_call_fragments_are_merged_by_index() {
    let mut acc: Vec<ToolCallAccum> = Vec::new();
    accumulate_tool_calls(
        &mut acc,
        &[delta(0, Some("call_"), Some("search_"), Some("{\"qu")), delta(1, Some("c2"), Some("get_article"), None)],
    );
    accumulate_tool_calls(&mut acc, &[delta(0, Some("1"), Some("articles"), Some("ery\":\"x\"}"))]);
    assert_eq!(acc.len(), 2);
    assert_eq!(acc[0].id, "call_1");
    assert_eq!(acc[0].name, "search_articles");
    assert_eq!(acc[0].arguments, "{\"query\":\"x\"}");
    assert_eq!(acc[1].name, "get_article");
    assert_eq!(acc[1].arguments, "");
}

#[test]
fn fragments_for_a_later_index_grow_the_list() {
    let mut acc: Vec<ToolCallAccum> = Vec::new();
    accumulate_tool_calls(&mut acc, &[delta(2, None, Some("x"), None)]);
    assert_eq!(acc.len(), 3);
    assert_eq!(acc[0].name, "");
    assert_eq!(acc[2].name, "x");
}

#[test]
fn nameless_calls_are_dropped_at_turn_end() {
    let calls = vec![
        ToolCallAccum { id: "a".into(), name: String::new(), arguments: String::new() },
        ToolCallAccum { id: "b".into(), name: "get_article".into(), arguments: "{}".into() },
    ];
    match finish_turn(calls) {
        TurnOutcome::ToolCalls(kept) => {
            assert_eq!(kept.len(), 1);
            assert_eq!(kept[0].id, "b");
        }
        _ => panic!("expected tool calls"),
    }
    let noise = vec![ToolCallAccum { id: "a".into(), name: String::new(), arguments: "x".into() }];
    assert!(matches!(finish_turn(noise), TurnOutcome::Finished));
    assert!(matches!(finish_turn(Vec::new()), TurnOutcome::Finished));
}

#[test]
fn turns_end_finish_or_fail() {
    assert!(matches!(after_turn(&Ok(TurnOutcome::Finished)), TurnStep::Done));
    assert!(matches!(after_turn(&Ok(TurnOutcome::Aborted)), TurnStep::Stop));
    assert!(matches!(after_turn(&Ok(TurnOutcome::ToolCalls(Vec::new()))), TurnStep::RunTools));
    match after_turn(&Err("stream error: x".to_string())) {
        TurnStep::Fail(m) => assert_eq!(m, "stream error: x"),
        _ => panic!("expected a failure"),
    }
}

#[test]
fn tool_rounds_are_bounded() {
    for round in 0..MAX_TOOL_ROUNDS - 1 {
        assert!(matches!(after_tools(round, &Ok(())), TurnStep::Continue));
    }
    match after_tools(MAX_TOOL_ROUNDS - 1, &Ok(())) {
        TurnStep::Fail(m) => assert_eq!(m, "the model kept requesting tools without answering"),
        _ => panic!("expected the round limit"),
    }
    match after_tools(0, &Err("tool failed".to_string())) {
        TurnStep::Fail(m) => assert_eq!(m, "tool failed"),
        _ => panic!("expected a failure"),
    }
}

// --- roles ------------------------------------------------------------------------------

#[test]
fn roles_round_trip_through_their_names() {
    for role in [Role::System, Role::User, Role::Assistant] {
        assert_eq!(role.as_str().parse::<Role>(), Ok(role));
    }
    assert_eq!(Role::parse("robot"), Err("unknown role: robot".to_string()));
}

// --- ingest ----------------------------------------------------------------------------

#[test]
fn embed_text_joins_title_and_body() {
    assert_eq!(truncate_embed_text("Title", "Body"), "Title\nBody");
    let long = "é".repeat(2000);
    let t = truncate_embed_text("T", &long);
    assert_eq!(t.chars().count(), EMBED_TEXT_MAX_CHARS);
    assert!(t.starts_with("T\né"));
}

#[test]
fn embed_body_prefers_summary_then_content() {
    assert_eq!(embed_text("T", &Some("s".into()), &Some("c".into())), "T\ns");
    assert_eq!(embed_text("T", &None, &Some("c".into())), "T\nc");
    assert_eq!(embed_text("T", &None, &None), "T\n");
}

#[test]
fn categories_are_stored_lowercase() {
    assert_eq!(category_name(Category::Crypto), "crypto");
    assert_eq!(category_name(Category::Ai), "ai");
    assert_eq!(category_name(Category::Security), "security");
    assert_eq!(category_name(Category::Market), "market");
    assert_eq!(category_name(Category::Defi), "defi");
}

fn item() -> RawItem {
    RawItem {
        title: "T".into(),
        url: "https://x".into(),
        source: "s".into(),
        category: Category::Ai,
        summary: None,
        content: Some("body".into()),
        published_at: "2024-01-01T00:00:00+00:00".into(),
    }
}

#[test]
fn only_new_rows_are_embedded() {
    assert_eq!(embed_job(0, 5, &item()), None);
    assert_eq!(embed_job(1, 5, &item()), Some((5, "T\nbody".to_string())));
}

#[test]
fn ingest_fetches_feeds_then_enabled_markets() {
    let mut cfg = TomlConfig::default();
    cfg.sources.rss.push(RssSource { name: "a".into(), url: "u".into(), category: Category::Crypto });
    cfg.sources.rss.push(RssSource { name: "b".into(), url: "v".into(), category: Category::Ai });
    assert_eq!(
        ingest_plan(&cfg),
        vec![
            FetchJob::Rss(0),
            FetchJob::Rss(1),
            FetchJob::Coingecko { top_n: 100 },
            FetchJob::Defillama,
            FetchJob::FearGreed
        ]
    );
    cfg.sources.coingecko.enabled = false;
    cfg.sources.fear_greed.enabled = false;
    assert_eq!(ingest_plan(&cfg), vec![FetchJob::Rss(0), FetchJob::Rss(1), FetchJob::Defillama]);
}

// --- fetchers --------------------------------------------------------------------------

const FEED: &str = r#"<?xml version="1.0"?>
<rss version="2.0"><channel><title>Feed</title><link>https://feed</link><description>d</description>
<item><title>First</title><link>https://a/1</link><description>sum</description><pubDate>Mon, 01 Jan 2024 10:00:00 GMT</pubDate></item>
<item><link>https://a/2</link><description>untitled</description></item>
<item><title>Third</title><description>no link</description></item>
<item><title>Undated</title><link>https://a/4</link></item>
</channel></rss>"#;

#[test]
fn feed_entries_need_title_and_link() {
    let source = RssSource { name: "Example".into(), url: "https://feed".into(), category: Category::Security };
    let items = parse_rss(FEED.as_bytes(), &source, "2024-02-02T00:00:00+00:00").unwrap();
    assert_eq!(items.len(), 2);
    assert_eq!(items[0].title, "First");
    assert_eq!(items[0].url, "https://a/1");
    assert_eq!(items[0].summary, Some("sum".to_string()));
    assert_eq!(items[0].published_at, "2024-01-01T10:00:00+00:00");
    assert_eq!(items[0].source, "Example");
    assert_eq!(items[0].category, Category::Security);
    assert_eq!(items[1].title, "Undated");
    assert_eq!(items[1].published_at, "2024-02-02T00:00:00+00:00");
}

#[test]
fn unparseable_feed_is_an_error() {
    let source = RssSource { name: "x".into(), url: "y".into(), category: Category::Crypto };
    assert!(parse_rss(b"not a feed", &source, "now").is_err());
}

const MEDIA_FEED: &str = r#"<?xml version="1.0" encoding="UTF-8"?>
<rss version="2.0" xmlns:media="http://search.yahoo.com/mrss/" xmlns:itunes="http://www.itunes.com/dtds/podcast-1.0.dtd">
<channel><title>Pod</title><link>https://feed</link><description>d</description>
<item><title>Épisode “un”</title><link>https://a/1</link><description>sum</description>
<itunes:duration>99999999999999999999999</itunes:duration>
<media:thumbnail url="https://a/t.png" time="١٢:٣٤:٥٦"/>
<author>editor@example.com (The Editor)</author></item>
</channel></rss>"#;

#[test]
fn extension_elements_are_skipped_not_parsed() {
    let source = RssSource { name: "Pod".into(), url: "https://feed".into(), category: Category::Market };
    let items = parse_rss(MEDIA_FEED.as_bytes(), &source, "2024-02-02T00:00:00+00:00").unwrap();
    assert_eq!(items.len(), 1);
    assert_eq!(items[0].title, "Épisode “un”");
    assert_eq!(items[0].url, "https://a/1");
}

#[test]
fn feeds_the_parser_cannot_take_safely_are_refused() {
    let source = RssSource { name: "x".into(), url: "y".into(), category: Category::Crypto };
    let refused = "feed not read: its bytes fall outside what the feed parser handles safely";
    let author = "<rss version=\"2.0\"><channel><title>t</title><item><title>A</title><link>https://a/1</link>\
        <author>The Editor of This Fine Site \u{201c}ed@example.com</author></item></channel></rss>";
    assert_eq!(parse_rss(author.as_bytes(), &source, "now").err().unwrap(), refused);
    let escaped = "<rss version=\"2.0\"><channel><item><title>A</title><link>https://a/1</link>\
        <author>ed&#64;example.com</author></item></channel></rss>";
    assert_eq!(parse_rss(escaped.as_bytes(), &source, "now").err().unwrap(), refused);
    let mut late_decl = String::from("<rss version=\"2.0\"><channel><title>t</title>");
    late_decl.push_str(&" ".repeat(80));
    late_decl.push_str("<?xml version=\"1.0\" encoding=\"ISO-8859-1\"?></channel></rss>");
    assert_eq!(parse_rss(late_decl.as_bytes(), &source, "now").err().unwrap(), refused);
    assert_eq!(parse_rss(b"<rss>\0</rss>", &source, "now").err().unwrap(), refused);
}

#[test]
fn derivative_endpoints_name_symbol_and_period() {
    let u = derivative_urls("HBARUSDT", "5m");
    assert_eq!(FAPI_BASE, "https://fapi.binance.com");
    assert_eq!(u.open_interest, "https://fapi.binance.com/fapi/v1/openInterest?symbol=HBARUSDT");
    assert_eq!(u.premium_index, "https://fapi.binance.com/fapi/v1/premiumIndex?symbol=HBARUSDT");
    assert_eq!(
        u.long_short,
        "https://fapi.binance.com/futures/data/globalLongShortAccountRatio?symbol=HBARUSDT&period=5m&limit=1"
    );
    assert_eq!(
        u.taker,
        "https://fapi.binance.com/futures/data/takerlongshortRatio?symbol=HBARUSDT&period=5m&limit=1"
    );
    assert_eq!(
        u.top_trader,
        "https://fapi.binance.com/futures/data/topLongShortPositionRatio?symbol=HBARUSDT&period=5m&limit=1"
    );
}

#[test]
fn readings_without_any_metric_are_skipped() {
    assert!(!reading_has_data(false, false, false, false, false, false));
    assert!(reading_has_data(false, false, false, false, false, true));
    assert!(next_funding_scheduled(1_700_000_000_000));
    assert!(!next_funding_scheduled(0));
}

// --- repository --------------------------------------------------------------------------

fn snapshot(id: i64, source: &str) -> SnapshotItem {
    SnapshotItem {
        id,
        title: "t".into(),
        source: source.into(),
        category: "market".into(),
        summary: None,
        content: None,
        published_at: "p".into(),
    }
}

#[test]
fn keyword_pattern_matches_anywhere() {
    assert_eq!(like_pattern("eth etf"), "%eth etf%");
    assert_eq!(like_pattern(""), "%%");
}

#[test]
fn snapshots_keep_source_order_and_skip_missing() {
    assert_eq!(snapshot_sources(), vec!["fear-greed", "coingecko", "defillama"]);
    let found = vec![Some(snapshot(1, "fear-greed")), None, Some(snapshot(3, "defillama"))];
    let got = latest_snapshots(found);
    assert_eq!(got.iter().map(|s| s.id).collect::<Vec<_>>(), vec![1, 3]);
    assert!(latest_snapshots(vec![None, None]).is_empty());
}

#[test]
fn tool_parameter_schemas_are_json_objects() {
    for kind in ToolKind::all() {
        let v: serde_json::Value = serde_json::from_str(&kind.parameters()).unwrap();
        assert_eq!(v["type"], "object");
        assert!(v["properties"].is_object());
        assert!(v["required"].is_array());
    }
    let v: serde_json::Value = serde_json::from_str(&ToolKind::SemanticSearch.parameters()).unwrap();
    assert_eq!(v["required"][0], "query");
    assert_eq!(v["properties"]["limit"]["maximum"], 50);
    let v: serde_json::Value = serde_json::from_str(&ToolKind::ListRecentArticles.parameters()).unwrap();
    assert_eq!(v["properties"]["category"]["enum"].as_array().unwrap().len(), 5);
    let v: serde_json::Value = serde_json::from_str(&ToolKind::GetArticle.parameters()).unwrap();
    assert_eq!(v["required"][0], "id");
    assert_eq!(v["properties"]["id"]["type"], "integer");
    let v: serde_json::Value = serde_json::from_str(&ToolKind::SearchArticles.parameters()).unwrap();
    assert_eq!(
        v["properties"]["query"]["description"],
        "Keywords or phrase to search for, e.g. \"ethereum etf\"."
    );
    assert_eq!(v["properties"]["limit"]["minimum"], 1);
    let v: serde_json::Value = serde_json::from_str(&ToolKind::GetMarketSnapshot.parameters()).unwrap();
    assert_eq!(v, serde_json::from_str::<serde_json::Value>(r#"{"type":"object","properties":{},"required":[]}"#).unwrap());
}

#[test]
fn titles_are_one_line_and_stable() {
    let x55 = "x".repeat(55);
    for text in ["  hello world \nsecond", "", "   ", x55.as_str(), "tab\tinside  ", "New chat"] {
        let t = title_from(text);
        assert!(!t.contains('\n'));
        assert_eq!(title_from(&t), t);
    }
    let long = format!("{} tail", "w".repeat(39));
    let t = title_from(&long);
    assert_eq!(t.chars().count(), 41);
    assert_eq!(title_from(&t), t);
}

#[test]
fn json_quote_matches_serde_json() {
    for s in ["plain", "say \"hi\"", "back\\slash", "line\nbreak\ttab\r", "\u{1}\u{1f}\u{7f}", "\u{8}\u{c}", "ünïcödé ✓ 🚀", ""] {
        assert_eq!(json_quote(s), serde_json::to_string(s).unwrap());
    }
    assert_eq!(json_quote("a\u{1}b"), "\"a\\u0001b\"");
}

#[test]
fn backfill_stops_when_nothing_is_found() {
    assert_eq!(backfill_next(0, 0), None);
    assert_eq!(backfill_next(128, 0), None);
    assert_eq!(backfill_next(0, 64), Some(64));
    assert_eq!(backfill_next(64, 3), Some(67));
    assert_eq!(backfill_next(usize::MAX - 1, 5), Some(usize::MAX));
}

#[test]
fn stored_tool_labels_are_a_compact_json_array() {
    let labels = vec!["semantic_search".to_string(), "say \"hi\"".to_string()];
    let stored = encode_tool_labels(&labels).unwrap().unwrap();
    assert_eq!(stored, r#"["semantic_search","say \"hi\""]"#);
    assert_eq!(stored, serde_json::to_string(&labels).unwrap());
    assert_eq!(decode_tool_labels(Some(&stored)), labels);
}
