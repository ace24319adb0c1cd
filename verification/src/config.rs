//! Configuration: the values mirroring `config.default.toml`, their defaults,
//! and the rules a loaded configuration must satisfy.
use vstd::prelude::*;

use crate::types::Category;
use crate::error::ConfigError;
use crate::agent::config::blank;
use crate::text::{is_blank, strs};

verus! {

/// A string holding `s`.
fn owned(s: &str) -> (r: String)
    ensures
        r@ == s@,
{
    String::from_str(s)
}

/// Every configuration section; absent sections take their defaults.
pub struct TomlConfig {
    pub sources: Sources,
    pub general: General,
    pub http: Http,
}

/// The news and market sources to ingest.
pub struct Sources {
    pub rss: Vec<RssSource>,
    pub defillama: DefillamaSource,
    pub coingecko: CoingeckoSource,
    pub cryptopanic: CryptopanicSource,
    pub reddit: RedditSource,
    pub arxiv: ArxivSource,
    pub huggingface: HuggingfaceSource,
}

/// One RSS or Atom feed.
pub struct RssSource {
    pub name: String,
    pub url: String,
    pub category: Category,
}

pub struct DefillamaSource {
    pub enabled: bool,
}

pub struct CoingeckoSource {
    pub enabled: bool,
    pub top_n: u32,
}

pub struct CryptopanicSource {
    pub enabled: bool,
    pub api_key: String,
}

pub struct RedditSource {
    pub enabled: bool,
    pub subreddits: Vec<String>,
    pub min_upvotes: u32,
}

pub struct ArxivSource {
    pub enabled: bool,
    pub categories: Vec<String>,
    pub max_per_run: u32,
}

pub struct HuggingfaceSource {
    pub enabled: bool,
}

pub struct General {
    pub watchlist: Vec<String>,
    pub retention_days: u32,
}

pub struct Http {
    pub timeout_ms: u64,
    pub user_agent: String,
}

impl Default for DefillamaSource {
    fn default() -> (s: Self)
        ensures
            s.enabled,
    {
        DefillamaSource { enabled: true }
    }
}

impl Default for CoingeckoSource {
    fn default() -> (s: Self)
        ensures
            s.enabled,
            s.top_n == 100,
    {
        CoingeckoSource { enabled: true, top_n: 100 }
    }
}

impl Default for CryptopanicSource {
    fn default() -> (s: Self)
        ensures
            !s.enabled,
            s.api_key@ == Seq::<char>::empty(),
    {
        CryptopanicSource { enabled: false, api_key: String::new() }
    }
}

impl Default for RedditSource {
    fn default() -> (s: Self)
        ensures
            s.enabled,
            strs(s.subreddits@) == seq![
                "CryptoCurrency"@,
                "MachineLearning"@,
                "LocalLLaMA"@,
                "ethereum"@,
            ],
            s.min_upvotes == 200,
    {
        let mut subreddits: Vec<String> = Vec::new();
        subreddits.push(owned("CryptoCurrency"));
        subreddits.push(owned("MachineLearning"));
        subreddits.push(owned("LocalLLaMA"));
        subreddits.push(owned("ethereum"));
        let s = RedditSource { enabled: true, subreddits, min_upvotes: 200 };
        assert(strs(s.subreddits@) =~= seq![
            "CryptoCurrency"@,
            "MachineLearning"@,
            "LocalLLaMA"@,
            "ethereum"@,
        ]);
        s
    }
}

impl Default for ArxivSource {
    fn default() -> (s: Self)
        ensures
            s.enabled,
            strs(s.categories@) == seq!["cs.AI"@, "cs.LG"@, "cs.CL"@],
            s.max_per_run == 25,
    {
        let mut categories: Vec<String> = Vec::new();
        categories.push(owned("cs.AI"));
        categories.push(owned("cs.LG"));
        categories.push(owned("cs.CL"));
        let s = ArxivSource { enabled: true, categories, max_per_run: 25 };
        assert(strs(s.categories@) =~= seq!["cs.AI"@, "cs.LG"@, "cs.CL"@]);
        s
    }
}

impl Default for HuggingfaceSource {
    fn default() -> (s: Self)
        ensures
            s.enabled,
    {
        HuggingfaceSource { enabled: true }
    }
}

impl Default for General {
    fn default() -> (s: Self)
        ensures
            strs(s.watchlist@) == seq!["hedera"@, "hbar"@, "stellar"@, "xlm"@, "ethereum"@],
            s.retention_days == 90,
    {
        let mut watchlist: Vec<String> = Vec::new();
        watchlist.push(owned("hedera"));
        watchlist.push(owned("hbar"));
        watchlist.push(owned("stellar"));
        watchlist.push(owned("xlm"));
        watchlist.push(owned("ethereum"));
        let s = General { watchlist, retention_days: 90 };
        assert(strs(s.watchlist@) =~= seq!["hedera"@, "hbar"@, "stellar"@, "xlm"@, "ethereum"@]);
        s
    }
}

impl Default for Http {
    fn default() -> (s: Self)
        ensures
            s.timeout_ms == 15000,
            s.user_agent@ == "buoya-news-agent/1.0 (personal aggregator)"@,
    {
        Http { timeout_ms: 15_000, user_agent: owned("buoya-news-agent/1.0 (personal aggregator)") }
    }
}

impl Default for Sources {
    fn default() -> (s: Self)
        ensures
            s.rss@.len() == 0,
            s.defillama.enabled,
            s.coingecko.enabled && s.coingecko.top_n == 100,
            !s.cryptopanic.enabled,
            s.reddit.enabled,
            s.arxiv.enabled,
            s.huggingface.enabled,
    {
        Sources {
            rss: Vec::new(),
            defillama: DefillamaSource::default(),
            coingecko: CoingeckoSource::default(),
            cryptopanic: CryptopanicSource::default(),
            reddit: RedditSource::default(),
            arxiv: ArxivSource::default(),
            huggingface: HuggingfaceSource::default(),
        }
    }
}

impl TomlConfig {
    /// Whether any source would produce items.
    pub open spec fn any_source_enabled_spec(&self) -> bool {
        ||| self.sources.rss@.len() > 0
        ||| self.sources.defillama.enabled
        ||| self.sources.coingecko.enabled
        ||| self.sources.cryptopanic.enabled
        ||| self.sources.reddit.enabled
        ||| self.sources.arxiv.enabled
        ||| self.sources.huggingface.enabled
    }

    /// The first rule this configuration breaks, as the message reported for
    /// it; `None` when it satisfies every rule. The rules, in order: an enabled
    /// CryptoPanic source needs an API key; some source must be enabled.
    pub open spec fn violation(&self) -> Option<Seq<char>> {
        if self.sources.cryptopanic.enabled && is_blank(self.sources.cryptopanic.api_key@) {
            Some("sources.cryptopanic is enabled but api_key is empty"@)
        } else if !self.any_source_enabled_spec() {
            Some("at least one source must be enabled"@)
        } else {
            None
        }
    }

    /// Reject configurations that parse but cannot produce sensible behavior.
    pub fn validate(&self) -> (r: Result<(), ConfigError>)
        ensures
            r is Ok <==> self.violation() is None,
            r matches Err(e) ==> e matches ConfigError::Invalid(m) && self.violation() == Some(
                m@,
            ),
    {
        if self.sources.cryptopanic.enabled && blank(&self.sources.cryptopanic.api_key) {
            return Err(
                ConfigError::Invalid(owned("sources.cryptopanic is enabled but api_key is empty")),
            );
        }
        if !self.any_source_enabled() {
            return Err(ConfigError::Invalid(owned("at least one source must be enabled")));
        }
        Ok(())
    }

    fn any_source_enabled(&self) -> (r: bool)
        ensures
            r == self.any_source_enabled_spec(),
    {
        self.sources.rss.len() > 0 || self.sources.defillama.enabled
            || self.sources.coingecko.enabled || self.sources.cryptopanic.enabled
            || self.sources.reddit.enabled || self.sources.arxiv.enabled
            || self.sources.huggingface.enabled
    }
}

impl Default for TomlConfig {
    /// Every section at its default, as an empty TOML file loads.
    fn default() -> (s: Self)
        ensures
            s.sources.rss@.len() == 0,
            s.sources.defillama.enabled,
            !s.sources.cryptopanic.enabled,
    {
        TomlConfig { sources: Sources::default(), general: General::default(), http: Http::default() }
    }
}

/// The defaults satisfy every rule: an empty config file loads.
pub proof fn law_defaults_are_valid(c: TomlConfig)
    requires
        c.sources.defillama.enabled,
        !c.sources.cryptopanic.enabled,
    ensures
        c.violation() is None,
{
}

/// Application settings: the LLM endpoint from the environment plus the TOML
/// configuration.
pub struct AppConfig {
    pub ai_api_key: String,
    pub ai_base_url: String,
    pub toml_config: TomlConfig,
}

impl AppConfig {
    /// Assemble the settings from the API key and optional base URL read from
    /// the environment and the loaded TOML; the base URL defaults to OpenRouter.
    pub fn from_parts(ai_api_key: String, ai_base_url: Option<String>, toml_config: TomlConfig) -> (c: AppConfig)
        ensures
            c.ai_api_key == ai_api_key,
            c.ai_base_url@ == match ai_base_url {
                Some(u) => u@,
                None => "https://openrouter.ai/api/v1"@,
            },
            c.toml_config == toml_config,
    {
        let ai_base_url = match ai_base_url {
            Some(u) => u,
            None => owned("https://openrouter.ai/api/v1"),
        };
        AppConfig { ai_api_key, ai_base_url, toml_config }
    }
}

} // verus!
