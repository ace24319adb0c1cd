//! Ingest decisions: which sources a tick fetches, how a fetched item is
//! stored, and the text each article is embedded from.
use vstd::prelude::*;

use crate::agent::config::TomlConfig;
use crate::agent::types::Category;
use crate::text::{chars_of, push_char};

verus! {

/// Max characters of an article fed to the embedder. The embedding model
/// truncates around 512 tokens; this keeps comfortably under that while
/// capturing title and summary or lead.
pub const EMBED_TEXT_MAX_CHARS: usize = 1500;

/// Number of articles embedded per backfill batch (one model call each).
pub const BACKFILL_BATCH: usize = 64;

/// One round of the embedding backfill, decided from the number of unindexed
/// articles the batch query `found` and the running `total`: `None` when none
/// was found, which ends the backfill; otherwise the total once this batch is
/// embedded (saturating at `usize::MAX`).
pub fn backfill_next(total: usize, found: usize) -> (r: Option<usize>)
    ensures
        found == 0 ==> r is None,
        found > 0 ==> r == Some(
            if total + found <= usize::MAX {
                (total + found) as usize
            } else {
                usize::MAX
            },
        ),
{
    if found == 0 {
        None
    } else {
        Some(total.saturating_add(found))
    }
}

/// What a fetcher returns: minimal, source-shaped, not yet stored.
pub struct RawItem {
    pub title: String,
    pub url: String,
    pub source: String,
    pub category: Category,
    pub summary: Option<String>,
    pub content: Option<String>,
    /// Publication time, RFC 3339.
    pub published_at: String,
}

/// The name a category is stored under: its variant name in lower case.
pub open spec fn category_name_spec(c: Category) -> Seq<char> {
    match c {
        Category::Crypto => "crypto"@,
        Category::Ai => "ai"@,
        Category::Security => "security"@,
        Category::Market => "market"@,
        Category::Defi => "defi"@,
    }
}

/// The name a category is stored under: its variant name in lower case.
pub fn category_name(c: Category) -> (s: &'static str)
    ensures
        s@ == category_name_spec(c),
{
    match c {
        Category::Crypto => "crypto",
        Category::Ai => "ai",
        Category::Security => "security",
        Category::Market => "market",
        Category::Defi => "defi",
    }
}

/// The first `EMBED_TEXT_MAX_CHARS` chars of `title`, a newline, then `body`.
pub open spec fn embed_text_spec(title: Seq<char>, body: Seq<char>) -> Seq<char> {
    let t = title + seq!['\n'] + body;
    if t.len() <= EMBED_TEXT_MAX_CHARS {
        t
    } else {
        t.take(EMBED_TEXT_MAX_CHARS as int)
    }
}

/// The text fed to the embedder: the title, a newline and the body, capped at
/// [`EMBED_TEXT_MAX_CHARS`] chars (never splitting a char).
pub fn truncate_embed_text(title: &str, body: &str) -> (r: String)
    ensures
        r@ == embed_text_spec(title@, body@),
{
    let mut all = chars_of(title);
    all.push('\n');
    let b = chars_of(body);
    let ghost head = all@;
    let mut i: usize = 0;
    while i < b.len()
        invariant
            i <= b.len(),
            all@ == head + b@.take(i as int),
        decreases b.len() - i,
    {
        all.push(b[i]);
        assert(b@.take(i + 1) == b@.take(i as int).push(b@[i as int]));
        i += 1;
    }
    assert(b@.take(b.len() as int) == b@);
    assert(all@ =~= title@ + seq!['\n'] + body@);
    let mut out = String::new();
    let mut k: usize = 0;
    while k < all.len() && k < EMBED_TEXT_MAX_CHARS
        invariant
            k <= all.len(),
            k <= EMBED_TEXT_MAX_CHARS,
            out@ == all@.take(k as int),
        decreases all.len() - k,
    {
        push_char(&mut out, all[k]);
        assert(all@.take(k + 1) == all@.take(k as int).push(all@[k as int]));
        k += 1;
    }
    proof {
        if all@.len() <= EMBED_TEXT_MAX_CHARS {
            assert(all@.take(k as int) =~= all@);
        }
    }
    out
}

/// The body an article is embedded from: its summary, else its content, else
/// nothing.
pub open spec fn embed_body_spec(summary: Option<Seq<char>>, content: Option<Seq<char>>) -> Seq<char> {
    match summary {
        Some(s) => s,
        None => match content {
            Some(c) => c,
            None => Seq::empty(),
        },
    }
}

/// The text of an optional string, if any.
pub open spec fn text_of(o: Option<String>) -> Option<Seq<char>> {
    match o {
        Some(s) => Some(s@),
        None => None,
    }
}

/// The text an article is embedded from: its title plus its summary (or its
/// content when it has no summary), capped as [`truncate_embed_text`] does.
pub fn embed_text(title: &str, summary: &Option<String>, content: &Option<String>) -> (r: String)
    ensures
        r@ == embed_text_spec(title@, embed_body_spec(text_of(*summary), text_of(*content))),
{
    match summary {
        Some(s) => truncate_embed_text(title, s.as_str()),
        None => match content {
            Some(c) => truncate_embed_text(title, c.as_str()),
            None => {
                let r = truncate_embed_text(title, "");
                proof {
                    reveal_strlit("");
                }
                r
            },
        },
    }
}

/// After inserting `item` (ignoring duplicate URLs): a row was new exactly
/// when the insert affected one, and then it is embedded under its new id.
pub fn embed_job(rows_affected: u64, rowid: i64, item: &RawItem) -> (job: Option<(i64, String)>)
    ensures
        match job {
            Some((id, text)) => rows_affected > 0 && id == rowid && text@ == embed_text_spec(
                item.title@,
                embed_body_spec(text_of(item.summary), text_of(item.content)),
            ),
            None => rows_affected == 0,
        },
{
    if rows_affected > 0 {
        Some((rowid, embed_text(item.title.as_str(), &item.summary, &item.content)))
    } else {
        None
    }
}

/// One source an ingest tick fetches.
#[derive(Clone, Copy, Debug, PartialEq, Eq, Structural)]
pub enum FetchJob {
    /// The RSS or Atom feed at this position of `sources.rss`.
    Rss(usize),
    /// The CoinGecko market overview of the top `top_n` coins.
    Coingecko { top_n: u32 },
    /// The DeFiLlama TVL overview.
    Defillama,
    /// The Fear & Greed index.
    FearGreed,
}

/// What a tick fetches, in order: every RSS feed, then each enabled market
/// source (CoinGecko, DeFiLlama, Fear & Greed).
pub open spec fn ingest_plan_spec(cfg: TomlConfig) -> Seq<FetchJob> {
    Seq::new(cfg.sources.rss@.len(), |i: int| FetchJob::Rss(i as usize)) + (if cfg.sources.coingecko.enabled {
        seq![FetchJob::Coingecko { top_n: cfg.sources.coingecko.top_n }]
    } else {
        seq![]
    }) + (if cfg.sources.defillama.enabled {
        seq![FetchJob::Defillama]
    } else {
        seq![]
    }) + (if cfg.sources.fear_greed.enabled {
        seq![FetchJob::FearGreed]
    } else {
        seq![]
    })
}

/// The sources one ingest tick fetches, in order.
pub fn ingest_plan(cfg: &TomlConfig) -> (jobs: Vec<FetchJob>)
    ensures
        jobs@ == ingest_plan_spec(*cfg),
{
    let mut jobs: Vec<FetchJob> = Vec::new();
    let n = cfg.sources.rss.len();
    let mut i: usize = 0;
    while i < n
        invariant
            i <= n == cfg.sources.rss@.len(),
            jobs@ == Seq::new(i as nat, |k: int| FetchJob::Rss(k as usize)),
        decreases n - i,
    {
        jobs.push(FetchJob::Rss(i));
        assert(jobs@ =~= Seq::new((i + 1) as nat, |k: int| FetchJob::Rss(k as usize)));
        i += 1;
    }
    if cfg.sources.coingecko.enabled {
        jobs.push(FetchJob::Coingecko { top_n: cfg.sources.coingecko.top_n });
    }
    if cfg.sources.defillama.enabled {
        jobs.push(FetchJob::Defillama);
    }
    if cfg.sources.fear_greed.enabled {
        jobs.push(FetchJob::FearGreed);
    }
    assert(jobs@ =~= ingest_plan_spec(*cfg));
    jobs
}

/// One value for a disabled source, one more for an enabled one.
pub open spec fn count_if(b: bool) -> int {
    if b {
        1
    } else {
        0
    }
}

/// What a tick fetches, stated job by job: every configured feed, by its
/// position and in order, first; a DeFiLlama job exactly when DeFiLlama is
/// enabled, a Fear & Greed job exactly when Fear & Greed is, and a CoinGecko
/// job exactly when CoinGecko is, asking for the configured number of coins;
/// nothing else.
pub proof fn law_ingest_plan_jobs(cfg: TomlConfig)
    ensures
        ingest_plan_spec(cfg).contains(FetchJob::Defillama) <==> cfg.sources.defillama.enabled,
        ingest_plan_spec(cfg).contains(FetchJob::FearGreed) <==> cfg.sources.fear_greed.enabled,
        (exists|j: int| 0 <= j < ingest_plan_spec(cfg).len() && #[trigger] ingest_plan_spec(cfg)[j] is Coingecko)
            <==> cfg.sources.coingecko.enabled,
        forall|j: int|
            0 <= j < ingest_plan_spec(cfg).len() && #[trigger] ingest_plan_spec(cfg)[j] is Coingecko
                ==> ingest_plan_spec(cfg)[j] == (FetchJob::Coingecko { top_n: cfg.sources.coingecko.top_n }),
        forall|i: usize| ingest_plan_spec(cfg).contains(FetchJob::Rss(i)) <==> i < cfg.sources.rss@.len(),
        forall|j: int| 0 <= j < cfg.sources.rss@.len() ==> #[trigger] ingest_plan_spec(cfg)[j] == FetchJob::Rss(
            j as usize,
        ),
        ingest_plan_spec(cfg).len() == cfg.sources.rss@.len() + count_if(cfg.sources.coingecko.enabled)
            + count_if(cfg.sources.defillama.enabled) + count_if(cfg.sources.fear_greed.enabled),
{
    let n = cfg.sources.rss@.len() as int;
    let p = ingest_plan_spec(cfg);
    let feeds = Seq::new(cfg.sources.rss@.len(), |i: int| FetchJob::Rss(i as usize));
    let cg: Seq<FetchJob> = if cfg.sources.coingecko.enabled {
        seq![FetchJob::Coingecko { top_n: cfg.sources.coingecko.top_n }]
    } else {
        seq![]
    };
    let dl: Seq<FetchJob> = if cfg.sources.defillama.enabled {
        seq![FetchJob::Defillama]
    } else {
        seq![]
    };
    let fg: Seq<FetchJob> = if cfg.sources.fear_greed.enabled {
        seq![FetchJob::FearGreed]
    } else {
        seq![]
    };
    let tail = cg + dl + fg;
    assert(p == feeds + tail);
    assert forall|j: int| 0 <= j < n implies #[trigger] p[j] == FetchJob::Rss(j as usize) by {
        assert(p[j] == feeds[j]);
    }
    assert forall|j: int| n <= j < p.len() implies #[trigger] p[j] == tail[j - n] by {}
    // Where each market job sits in the tail.
    let cgi = 0int;
    let dli = cg.len() as int;
    let fgi = (cg.len() + dl.len()) as int;
    assert forall|k: int| 0 <= k < tail.len() implies (#[trigger] tail[k] is Coingecko ==> k == cgi && cfg.sources.coingecko.enabled)
        && (tail[k] == FetchJob::Defillama ==> k == dli && cfg.sources.defillama.enabled) && (tail[k]
        == FetchJob::FearGreed ==> k == fgi && cfg.sources.fear_greed.enabled) && !(tail[k] is Rss) by {
        if k < cg.len() {
            assert(tail[k] == cg[k]);
        } else if k < cg.len() + dl.len() {
            assert(tail[k] == dl[k - cg.len()]);
        } else {
            assert(tail[k] == fg[k - cg.len() - dl.len()]);
        }
    }
    if cfg.sources.defillama.enabled {
        assert(p[n + dli] == FetchJob::Defillama);
    }
    if cfg.sources.fear_greed.enabled {
        assert(p[n + fgi] == FetchJob::FearGreed);
    }
    if cfg.sources.coingecko.enabled {
        assert(p[n + cgi] == FetchJob::Coingecko { top_n: cfg.sources.coingecko.top_n });
    }
    assert forall|j: int| 0 <= j < p.len() && #[trigger] p[j] is Coingecko implies p[j] == (FetchJob::Coingecko {
        top_n: cfg.sources.coingecko.top_n,
    }) by {
        if j >= n {
            assert(tail[j - n] == cg[0]);
        }
    }
    assert forall|i: usize| p.contains(FetchJob::Rss(i)) <==> i < n by {
        if i < n {
            assert(p[i as int] == FetchJob::Rss(i));
        }
        if p.contains(FetchJob::Rss(i)) {
            let j = choose|j: int| 0 <= j < p.len() && p[j] == FetchJob::Rss(i);
            if j >= n {
                assert(p[j] == tail[j - n]);
            }
        }
    }
    if p.contains(FetchJob::Defillama) {
        let j = choose|j: int| 0 <= j < p.len() && p[j] == FetchJob::Defillama;
        if j >= n {
            assert(p[j] == tail[j - n]);
        }
    }
    if p.contains(FetchJob::FearGreed) {
        let j = choose|j: int| 0 <= j < p.len() && p[j] == FetchJob::FearGreed;
        if j >= n {
            assert(p[j] == tail[j - n]);
        }
    }
    if exists|j: int| 0 <= j < p.len() && #[trigger] p[j] is Coingecko {
        let j = choose|j: int| 0 <= j < p.len() && #[trigger] p[j] is Coingecko;
        if j >= n {
            assert(p[j] == tail[j - n]);
        }
    }
}

} // verus!
