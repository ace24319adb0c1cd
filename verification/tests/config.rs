use buoya_news_agent::agent::config::{AppConfig, TomlConfig};
use buoya_news_agent::config as early;
use buoya_news_agent::error::ConfigError;
use buoya_news_agent::types::HumanDuration;

fn invalid_message(r: Result<(), ConfigError>) -> String {
    match r {
        Err(ConfigError::Invalid(m)) => m,
        Err(_) => panic!("expected an invalid-config error"),
        Ok(()) => panic!("expected the config to be rejected"),
    }
}

fn nothing_enabled() -> TomlConfig {
    let mut c = TomlConfig::default();
    c.sources.defillama.enabled = false;
    c.sources.coingecko.enabled = false;
    c.sources.fear_greed.enabled = false;
    c.sources.reddit.enabled = false;
    c.sources.arxiv.enabled = false;
    c.sources.huggingface.enabled = false;
    c.sources.derivatives.enabled = false;
    c
}

#[test]
fn default_config_is_valid() {
    let c = TomlConfig::default();
    assert!(c.validate().is_ok());
    assert_eq!(c.general.ingest_interval_secs, 900);
    assert_eq!(c.sources.derivatives.stats_period, "5m");
    assert_eq!(
        c.sources.derivatives.symbols,
        vec!["BTCUSDT", "ETHUSDT", "SOLUSDT", "HBARUSDT", "XLMUSDT"]
    );
    assert_eq!(c.http.timeout_ms, 15_000);
}

#[test]
fn cryptopanic_needs_an_api_key() {
    let mut c = TomlConfig::default();
    c.sources.cryptopanic.enabled = true;
    c.sources.cryptopanic.api_key = "  ".to_string();
    assert_eq!(invalid_message(c.validate()), "sources.cryptopanic is enabled but api_key is empty");
    c.sources.cryptopanic.api_key = "key".to_string();
    assert!(c.validate().is_ok());
}

#[test]
fn telegram_needs_a_chat_id() {
    let mut c = TomlConfig::default();
    c.connectors.telegram.enabled = true;
    assert_eq!(invalid_message(c.validate()), "connectors.telegram is enabled but chat_id is empty");
    c.connectors.telegram.chat_id = "-100123".to_string();
    assert!(c.validate().is_ok());
}

#[test]
fn derivatives_need_symbols_and_period() {
    let mut c = TomlConfig::default();
    c.sources.derivatives.symbols.clear();
    assert_eq!(invalid_message(c.validate()), "sources.derivatives is enabled but symbols is empty");
    let mut c = TomlConfig::default();
    c.sources.derivatives.stats_period = " ".to_string();
    assert_eq!(invalid_message(c.validate()), "sources.derivatives is enabled but stats_period is empty");
}

#[test]
fn some_source_must_be_enabled() {
    let c = nothing_enabled();
    assert_eq!(invalid_message(c.validate()), "at least one source must be enabled");
}

#[test]
fn ingest_interval_must_be_positive() {
    let mut c = TomlConfig::default();
    c.general.ingest_interval_secs = 0;
    assert_eq!(invalid_message(c.validate()), "general.ingest_interval_secs must be greater than 0");
}

#[test]
fn app_config_requires_api_key_and_defaults_the_rest() {
    let missing = AppConfig::from_parts(None, None, None, TomlConfig::default(), None);
    assert_eq!(missing.err(), Some("AI_API_KEY env var not set".to_string()));

    let c = AppConfig::from_parts(Some("k".into()), None, None, TomlConfig::default(), Some("  ".into()))
        .unwrap();
    assert_eq!(c.ai_api_key, "k");
    assert_eq!(c.ai_base_url, "https://openrouter.ai/api/v1");
    assert_eq!(c.ai_model, "openai/gpt-oss-20b:free");
    assert_eq!(c.telegram_bot_token, None);

    let c = AppConfig::from_parts(
        Some("k".into()),
        Some("http://localhost:1234/v1".into()),
        Some("m".into()),
        TomlConfig::default(),
        Some("123:abc".into()),
    )
    .unwrap();
    assert_eq!(c.ai_base_url, "http://localhost:1234/v1");
    assert_eq!(c.ai_model, "m");
    assert_eq!(c.telegram_bot_token, Some("123:abc".to_string()));
}

#[test]
fn early_config_rules() {
    let c = early::TomlConfig::default();
    assert!(c.validate().is_ok());
    let mut c = early::TomlConfig::default();
    c.sources.cryptopanic.enabled = true;
    assert_eq!(invalid_message(c.validate()), "sources.cryptopanic is enabled but api_key is empty");
    let a = early::AppConfig::from_parts("k".into(), None, early::TomlConfig::default());
    assert_eq!(a.ai_base_url, "https://openrouter.ai/api/v1");
}

#[test]
fn durations_parse_the_humantime_way() {
    assert_eq!(HumanDuration::parse("12h").unwrap().as_duration(), std::time::Duration::from_secs(12 * 3600));
    assert_eq!(
        HumanDuration::parse("2h 37min").unwrap().as_duration(),
        std::time::Duration::from_secs(2 * 3600 + 37 * 60)
    );
    assert!(HumanDuration::parse("soon").is_err());
    assert!(HumanDuration::parse("0").is_ok());
}

#[test]
fn overlong_durations_are_refused_before_parsing() {
    assert_eq!(
        HumanDuration::parse("18446744073709551615s 1000000000ns").unwrap_err(),
        "duration has more than 11 digits"
    );
    assert_eq!(
        HumanDuration::parse("99999999999s").unwrap().as_duration(),
        std::time::Duration::from_secs(99_999_999_999)
    );
    assert!(HumanDuration::parse("1hour 12min 5s").is_ok());
}
