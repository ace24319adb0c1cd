//! Configuration: the values mirroring `config.default.toml`, their defaults,
//! and the rules a loaded configuration must satisfy.
use vstd::prelude::*;

use crate::agent::types::Category;
use crate::error::ConfigError;
use crate::text::{chars_of, is_blank, is_blank_chars, strs};

verus! {

/// Whether the text is empty once trimmed.
pub fn blank(s: &String) -> (r: bool)
    ensures
        r == is_blank(s@),
{
    let c = chars_of(s.as_str());
    is_blank_chars(&c)
}

/// A string holding `s`.
fn owned(s: &str) -> (r: String)
    ensures
        r@ == s@,
{
    String::from_str(s)
}

/// Every configuration section; absent sections take their defaults.
pub struct TomlConfig {
    pub sources: Sources,
    pub general: General,
    pub http: Http,
    /// Outbound connectors (Telegram, …). Absent in config = all disabled.
    pub connectors: Connectors,
}

/// The news and market sources to ingest.
pub struct Sources {
    pub rss: Vec<RssSource>,
    pub defillama: DefillamaSource,
    pub coingecko: CoingeckoSource,
    pub cryptopanic: CryptopanicSource,
    pub fear_greed: FearGreedSource,
    pub reddit: RedditSource,
    pub arxiv: ArxivSource,
    pub huggingface: HuggingfaceSource,
    pub derivatives: DerivativesSource,
}

/// One RSS or Atom feed.
pub struct RssSource {
    pub name: String,
    pub url: String,
    pub category: Category,
}

pub struct DefillamaSource {
    pub enabled: bool,
}

pub struct CoingeckoSource {
    pub enabled: bool,
    pub top_n: u32,
}

pub struct CryptopanicSource {
    pub enabled: bool,
    pub api_key: String,
}

pub struct FearGreedSource {
    pub enabled: bool,
}

pub struct RedditSource {
    pub enabled: bool,
    pub subreddits: Vec<String>,
    pub min_upvotes: u32,
}

pub struct ArxivSource {
    pub enabled: bool,
    pub categories: Vec<String>,
    pub max_per_run: u32,
}

pub struct HuggingfaceSource {
    pub enabled: bool,
}

/// Crypto-futures derivatives metrics (open interest, funding rate, long/short
/// ratio) pulled per symbol from Binance's keyless USDⓈ-M public API.
pub struct DerivativesSource {
    pub enabled: bool,
    /// Perpetual contract symbols to track, in the exchange's notation (e.g.
    /// `"BTCUSDT"`).
    pub symbols: Vec<String>,
    /// Aggregation period for the futures stats endpoints (e.g. `5m`, `1h`).
    pub stats_period: String,
}

pub struct General {
    pub watchlist: Vec<String>,
    pub retention_days: u32,
    /// How often to re-run ingest, in seconds. Ingest also runs once at startup.
    pub ingest_interval_secs: u64,
}

/// Push/notification connectors; each is disabled unless configured.
pub struct Connectors {
    pub telegram: TelegramToml,
}

/// Non-secret Telegram connector settings. The bot token is a secret and lives
/// in the environment, not here.
pub struct TelegramToml {
    /// Master switch. When false, the connector never starts regardless of token.
    pub enabled: bool,
    /// Destination chat/group/channel id that alerts are sent to.
    pub chat_id: String,
    /// Category allowlist for alerts. Empty = send every category.
    pub categories: Vec<Category>,
}

pub struct Http {
    pub timeout_ms: u64,
    pub user_agent: String,
}

impl Default for DefillamaSource {
    fn default() -> (s: Self)
        ensures
            s.enabled,
    {
        DefillamaSource { enabled: true }
    }
}

impl Default for CoingeckoSource {
    fn default() -> (s: Self)
        ensures
            s.enabled,
            s.top_n == 100,
    {
        CoingeckoSource { enabled: true, top_n: 100 }
    }
}

impl Default for CryptopanicSource {
    fn default() -> (s: Self)
        ensures
            !s.enabled,
            s.api_key@ == Seq::<char>::empty(),
    {
        CryptopanicSource { enabled: false, api_key: String::new() }
    }
}

impl Default for FearGreedSource {
    fn default() -> (s: Self)
        ensures
            s.enabled,
    {
        FearGreedSource { enabled: true }
    }
}

impl Default for RedditSource {
    fn default() -> (s: Self)
        ensures
            s.enabled,
            strs(s.subreddits@) == seq![
                "CryptoCurrency"@,
                "MachineLearning"@,
                "LocalLLaMA"@,
                "ethereum"@,
            ],
            s.min_upvotes == 200,
    {
        let mut subreddits: Vec<String> = Vec::new();
        subreddits.push(owned("CryptoCurrency"));
        subreddits.push(owned("MachineLearning"));
        subreddits.push(owned("LocalLLaMA"));
        subreddits.push(owned("ethereum"));
        let s = RedditSource { enabled: true, subreddits, min_upvotes: 200 };
        assert(strs(s.subreddits@) =~= seq![
            "CryptoCurrency"@,
            "MachineLearning"@,
            "LocalLLaMA"@,
            "ethereum"@,
        ]);
        s
    }
}

impl Default for ArxivSource {
    fn default() -> (s: Self)
        ensures
            s.enabled,
            strs(s.categories@) == seq!["cs.AI"@, "cs.LG"@, "cs.CL"@],
            s.max_per_run == 25,
    {
        let mut categories: Vec<String> = Vec::new();
        categories.push(owned("cs.AI"));
        categories.push(owned("cs.LG"));
        categories.push(owned("cs.CL"));
        let s = ArxivSource { enabled: true, categories, max_per_run: 25 };
        assert(strs(s.categories@) =~= seq!["cs.AI"@, "cs.LG"@, "cs.CL"@]);
        s
    }
}

impl Default for HuggingfaceSource {
    fn default() -> (s: Self)
        ensures
            s.enabled,
    {
        HuggingfaceSource { enabled: true }
    }
}

impl Default for DerivativesSource {
    fn default() -> (s: Self)
        ensures
            s.enabled,
            strs(s.symbols@) == seq![
                "BTCUSDT"@,
                "ETHUSDT"@,
                "SOLUSDT"@,
                "HBARUSDT"@,
                "XLMUSDT"@,
            ],
            s.symbols@.len() == 5,
            s.stats_period@ == "5m"@,
    {
        let mut symbols: Vec<String> = Vec::new();
        symbols.push(owned("BTCUSDT"));
        symbols.push(owned("ETHUSDT"));
        symbols.push(owned("SOLUSDT"));
        symbols.push(owned("HBARUSDT"));
        symbols.push(owned("XLMUSDT"));
        let s = DerivativesSource { enabled: true, symbols, stats_period: owned("5m") };
        assert(strs(s.symbols@) =~= seq![
            "BTCUSDT"@,
            "ETHUSDT"@,
            "SOLUSDT"@,
            "HBARUSDT"@,
            "XLMUSDT"@,
        ]);
        s
    }
}

impl Default for General {
    fn default() -> (s: Self)
        ensures
            strs(s.watchlist@) == seq!["hedera"@, "hbar"@, "stellar"@, "xlm"@, "ethereum"@],
            s.retention_days == 90,
            s.ingest_interval_secs == 900,
    {
        let mut watchlist: Vec<String> = Vec::new();
        watchlist.push(owned("hedera"));
        watchlist.push(owned("hbar"));
        watchlist.push(owned("stellar"));
        watchlist.push(owned("xlm"));
        watchlist.push(owned("ethereum"));
        let s = General { watchlist, retention_days: 90, ingest_interval_secs: 900 };
        assert(strs(s.watchlist@) =~= seq!["hedera"@, "hbar"@, "stellar"@, "xlm"@, "ethereum"@]);
        s
    }
}

impl Default for TelegramToml {
    fn default() -> (s: Self)
        ensures
            !s.enabled,
            s.chat_id@ == Seq::<char>::empty(),
            s.categories@.len() == 0,
    {
        TelegramToml { enabled: false, chat_id: String::new(), categories: Vec::new() }
    }
}

impl Default for Connectors {
    fn default() -> (s: Self)
        ensures
            !s.telegram.enabled,
            s.telegram.chat_id@ == Seq::<char>::empty(),
            s.telegram.categories@.len() == 0,
    {
        Connectors { telegram: TelegramToml::default() }
    }
}

impl Default for Http {
    fn default() -> (s: Self)
        ensures
            s.timeout_ms == 15000,
            s.user_agent@ == "buoya-news-agent/1.0 (personal aggregator)"@,
    {
        Http { timeout_ms: 15_000, user_agent: owned("buoya-news-agent/1.0 (personal aggregator)") }
    }
}

impl Default for Sources {
    fn default() -> (s: Self)
        ensures
            s.rss@.len() == 0,
            s.defillama.enabled,
            s.coingecko.enabled && s.coingecko.top_n == 100,
            !s.cryptopanic.enabled,
            s.fear_greed.enabled,
            s.reddit.enabled,
            s.arxiv.enabled,
            s.huggingface.enabled,
            s.derivatives.enabled && s.derivatives.symbols@.len() == 5 && s.derivatives.stats_period@
                == "5m"@,
    {
        Sources {
            rss: Vec::new(),
            defillama: DefillamaSource::default(),
            coingecko: CoingeckoSource::default(),
            cryptopanic: CryptopanicSource::default(),
            fear_greed: FearGreedSource::default(),
            reddit: RedditSource::default(),
            arxiv: ArxivSource::default(),
            huggingface: HuggingfaceSource::default(),
            derivatives: DerivativesSource::default(),
        }
    }
}

impl TomlConfig {
    /// Whether any source would produce items.
    pub open spec fn any_source_enabled_spec(&self) -> bool {
        ||| self.sources.rss@.len() > 0
        ||| self.sources.defillama.enabled
        ||| self.sources.coingecko.enabled
        ||| self.sources.cryptopanic.enabled
        ||| self.sources.fear_greed.enabled
        ||| self.sources.reddit.enabled
        ||| self.sources.arxiv.enabled
        ||| self.sources.huggingface.enabled
        ||| self.sources.derivatives.enabled
    }

    /// The first rule this configuration breaks, as the message reported for
    /// it; `None` when it satisfies every rule. The rules, in order: an enabled
    /// CryptoPanic source needs an API key; an enabled Telegram connector needs
    /// a chat id; enabled derivatives need symbols and a stats period; some
    /// source must be enabled; the ingest interval must be positive.
    pub open spec fn violation(&self) -> Option<Seq<char>> {
        if self.sources.cryptopanic.enabled && is_blank(self.sources.cryptopanic.api_key@) {
            Some("sources.cryptopanic is enabled but api_key is empty"@)
        } else if self.connectors.telegram.enabled && is_blank(self.connectors.telegram.chat_id@) {
            Some("connectors.telegram is enabled but chat_id is empty"@)
        } else if self.sources.derivatives.enabled && self.sources.derivatives.symbols@.len() == 0 {
            Some("sources.derivatives is enabled but symbols is empty"@)
        } else if self.sources.derivatives.enabled && is_blank(
            self.sources.derivatives.stats_period@,
        ) {
            Some("sources.derivatives is enabled but stats_period is empty"@)
        } else if !self.any_source_enabled_spec() {
            Some("at least one source must be enabled"@)
        } else if self.general.ingest_interval_secs == 0 {
            Some("general.ingest_interval_secs must be greater than 0"@)
        } else {
            None
        }
    }

    /// Reject configurations that parse but cannot produce sensible behavior.
    pub fn validate(&self) -> (r: Result<(), ConfigError>)
        ensures
            r is Ok <==> self.violation() is None,
            r matches Err(e) ==> e matches ConfigError::Invalid(m) && self.violation() == Some(
                m@,
            ),
    {
        if self.sources.cryptopanic.enabled && blank(&self.sources.cryptopanic.api_key) {
            return Err(
                ConfigError::Invalid(owned("sources.cryptopanic is enabled but api_key is empty")),
            );
        }
        if self.connectors.telegram.enabled && blank(&self.connectors.telegram.chat_id) {
            return Err(
                ConfigError::Invalid(owned("connectors.telegram is enabled but chat_id is empty")),
            );
        }
        if self.sources.derivatives.enabled && self.sources.derivatives.symbols.len() == 0 {
            return Err(
                ConfigError::Invalid(owned("sources.derivatives is enabled but symbols is empty")),
            );
        }
        if self.sources.derivatives.enabled && blank(&self.sources.derivatives.stats_period) {
            return Err(
                ConfigError::Invalid(
                    owned("sources.derivatives is enabled but stats_period is empty"),
                ),
            );
        }
        if !self.any_source_enabled() {
            return Err(ConfigError::Invalid(owned("at least one source must be enabled")));
        }
        if self.general.ingest_interval_secs == 0 {
            return Err(
                ConfigError::Invalid(owned("general.ingest_interval_secs must be greater than 0")),
            );
        }
        Ok(())
    }

    fn any_source_enabled(&self) -> (r: bool)
        ensures
            r == self.any_source_enabled_spec(),
    {
        self.sources.rss.len() > 0 || self.sources.defillama.enabled
            || self.sources.coingecko.enabled || self.sources.cryptopanic.enabled
            || self.sources.fear_greed.enabled || self.sources.reddit.enabled
            || self.sources.arxiv.enabled || self.sources.huggingface.enabled
            || self.sources.derivatives.enabled
    }
}

/// The message for a configuration with nothing to fetch.
pub open spec fn no_source_message() -> Seq<char> {
    "at least one source must be enabled"@
}

/// Whether no source at all is configured: no RSS feed and every other
/// source switched off.
pub open spec fn no_source_configured(cfg: TomlConfig) -> bool {
    &&& cfg.sources.rss@.len() == 0
    &&& !cfg.sources.defillama.enabled
    &&& !cfg.sources.coingecko.enabled
    &&& !cfg.sources.cryptopanic.enabled
    &&& !cfg.sources.fear_greed.enabled
    &&& !cfg.sources.reddit.enabled
    &&& !cfg.sources.arxiv.enabled
    &&& !cfg.sources.huggingface.enabled
    &&& !cfg.sources.derivatives.enabled
}

/// Validation reports that no source is enabled only when none is: a
/// configuration with an RSS feed, or with any other source switched on, is
/// never refused for it; and one with nothing to fetch is refused for it
/// unless an enabled Telegram connector without a chat id is reported first.
pub proof fn law_sources_rule(cfg: TomlConfig)
    ensures
        cfg.violation() == Some(no_source_message()) ==> no_source_configured(cfg),
        cfg.sources.rss@.len() > 0 ==> cfg.violation() != Some(no_source_message()),
        no_source_configured(cfg) && !(cfg.connectors.telegram.enabled && is_blank(cfg.connectors.telegram.chat_id@))
            ==> cfg.violation() == Some(no_source_message()),
{
    reveal_strlit("at least one source must be enabled");
    reveal_strlit("sources.cryptopanic is enabled but api_key is empty");
    reveal_strlit("connectors.telegram is enabled but chat_id is empty");
    reveal_strlit("sources.derivatives is enabled but symbols is empty");
    reveal_strlit("sources.derivatives is enabled but stats_period is empty");
    reveal_strlit("general.ingest_interval_secs must be greater than 0");
    let m = no_source_message();
    assert(m[0] == 'a');
    assert("sources.cryptopanic is enabled but api_key is empty"@[0] != m[0]);
    assert("connectors.telegram is enabled but chat_id is empty"@[0] != m[0]);
    assert("sources.derivatives is enabled but symbols is empty"@[0] != m[0]);
    assert("sources.derivatives is enabled but stats_period is empty"@[0] != m[0]);
    assert("general.ingest_interval_secs must be greater than 0"@[0] != m[0]);
}

impl Default for TomlConfig {
    /// Every section at its default, as an empty TOML file loads.
    fn default() -> (s: Self)
        ensures
            s.sources.rss@.len() == 0,
            s.sources.defillama.enabled,
            !s.sources.cryptopanic.enabled,
            !s.connectors.telegram.enabled,
            s.sources.derivatives.enabled && s.sources.derivatives.symbols@.len() == 5
                && s.sources.derivatives.stats_period@ == "5m"@,
            s.general.ingest_interval_secs == 900,
    {
        TomlConfig {
            sources: Sources::default(),
            general: General::default(),
            http: Http::default(),
            connectors: Connectors::default(),
        }
    }
}

/// The defaults satisfy every rule: an empty config file loads.
pub proof fn law_defaults_are_valid(c: TomlConfig)
    requires
        c.sources.rss@.len() == 0,
        c.sources.defillama.enabled,
        !c.sources.cryptopanic.enabled,
        !c.connectors.telegram.enabled,
        c.sources.derivatives.enabled && c.sources.derivatives.symbols@.len() == 5
            && c.sources.derivatives.stats_period@ == "5m"@,
        c.general.ingest_interval_secs == 900,
    ensures
        c.violation() is None,
{
    reveal_strlit("5m");
    assert(!is_blank(c.sources.derivatives.stats_period@)) by {
        assert(c.sources.derivatives.stats_period@[0] == '5');
    }
}

/// Application settings: the LLM endpoint from the environment plus the TOML
/// configuration.
pub struct AppConfig {
    pub ai_api_key: String,
    pub ai_base_url: String,
    pub ai_model: String,
    pub toml_config: TomlConfig,
    /// Telegram bot token; `None` when unset or blank, so the connector won't start.
    pub telegram_bot_token: Option<String>,
}

pub open spec fn default_base_url() -> Seq<char> {
    "https://openrouter.ai/api/v1"@
}

pub open spec fn default_model() -> Seq<char> {
    "openai/gpt-oss-20b:free"@
}

impl AppConfig {
    /// Assemble the settings from the values read from the environment
    /// (`AI_API_KEY`, `AI_BASE_URL`, `AI_MODEL`, `TELEGRAM_BOT_TOKEN`) and the
    /// loaded TOML: the API key is required, the base URL and model have
    /// defaults, and a blank bot token counts as unset.
    pub fn from_parts(
        ai_api_key: Option<String>,
        ai_base_url: Option<String>,
        ai_model: Option<String>,
        toml_config: TomlConfig,
        telegram_bot_token: Option<String>,
    ) -> (r: Result<AppConfig, String>)
        ensures
            r is Err <==> ai_api_key is None,
            r matches Err(m) ==> m@ == "AI_API_KEY env var not set"@,
            r matches Ok(c) ==> {
                &&& c.ai_api_key@ == ai_api_key.unwrap()@
                &&& c.ai_base_url@ == match ai_base_url {
                    Some(u) => u@,
                    None => default_base_url(),
                }
                &&& c.ai_model@ == match ai_model {
                    Some(m) => m@,
                    None => default_model(),
                }
                &&& c.toml_config == toml_config
                &&& match telegram_bot_token {
                    Some(t) => if is_blank(t@) {
                        c.telegram_bot_token is None
                    } else {
                        c.telegram_bot_token matches Some(k) && k@ == t@
                    },
                    None => c.telegram_bot_token is None,
                }
            },
    {
        let ai_api_key = match ai_api_key {
            Some(k) => k,
            None => {
                return Err(owned("AI_API_KEY env var not set"));
            },
        };
        let ai_base_url = match ai_base_url {
            Some(u) => u,
            None => owned("https://openrouter.ai/api/v1"),
        };
        let ai_model = match ai_model {
            Some(m) => m,
            None => owned("openai/gpt-oss-20b:free"),
        };
        let telegram_bot_token = match telegram_bot_token {
            Some(t) => if blank(&t) {
                None
            } else {
                Some(t)
            },
            None => None,
        };
        Ok(AppConfig { ai_api_key, ai_base_url, ai_model, toml_config, telegram_bot_token })
    }
}

} // verus!
