//! The configuration, by section.
use vstd::prelude::*;

use crate::float_bits::FloatBits;
use crate::text::{eq_ignore_ascii_case, same_ignoring_ascii_case};

verus! {

/// The whole configuration.
pub struct Config {
    pub bot: BotConfig,
    pub openrouter: OpenRouterConfig,
    pub embeddings: EmbeddingsConfig,
    pub sqlite: SqliteConfig,
    pub qdrant: QdrantConfig,
    pub redis: RedisConfig,
    pub memory: MemoryConfig,
    pub ratelimit: RateLimitConfig,
    pub decision: DecisionConfig,
    pub events: EventsConfig,
    pub observability: ObservabilityConfig,
    pub secrets: Secrets,
}

/// Who the bot is and who administers it.
pub struct BotConfig {
    pub admin_ids: Vec<i64>,
    pub default_personality: String,
    pub aliases: Vec<String>,
}

/// The language-model service.
pub struct OpenRouterConfig {
    pub base_url: String,
    pub model_main: String,
    pub model_pro: String,
    pub model_ask_free: String,
    pub model_vision: String,
    pub model_decision: String,
    pub vision_fallbacks: Vec<String>,
    pub timeout_sec: u64,
    pub max_retries: u32,
}

/// The embedding service.
pub struct EmbeddingsConfig {
    pub base_url: String,
    pub embedding_model: String,
}

/// The SQLite file.
pub struct SqliteConfig {
    pub path: String,
    pub max_connections: u32,
}

/// The vector store.
pub struct QdrantConfig {
    pub url: String,
}

/// The key-value store.
pub struct RedisConfig {
    pub url: String,
}

/// Sizes and thresholds of the memories.
pub struct MemoryConfig {
    pub working_window_size: u32,
    pub working_ttl_days: u32,
    pub episodic_summary_every_n: u32,
    pub episodic_summary_lookback: u32,
    pub facts_extraction_every_n: u32,
    pub facts_lookback: u32,
    pub top_k_summaries: u32,
    pub top_k_facts: u32,
    pub top_k_events: u32,
    pub top_k_lore: u32,
    pub fact_dedup_threshold: FloatBits,
}

/// Limits on how often the bot works.
pub struct RateLimitConfig {
    pub user_cooldown_sec: u32,
    pub chat_max_per_min: u32,
    pub vision_concurrent: u32,
}

/// How likely an answer is for each trigger.
pub struct DecisionConfig {
    pub mention_p: FloatBits,
    pub reply_p: FloatBits,
    pub alias_in_text_p: FloatBits,
}

/// The memory of chat events.
pub struct EventsConfig {
    pub buffer_threshold: u32,
    pub score_model: String,
    pub score_fallbacks: Vec<String>,
    pub score_min: u8,
    pub dedup_threshold: FloatBits,
}

/// Ports and log level.
pub struct ObservabilityConfig {
    pub metrics_port: u16,
    pub healthz_port: u16,
    pub log_level: String,
}

/// Tokens and keys.
pub struct Secrets {
    pub tg_bot_token: String,
    pub or_api_key: String,
    pub deepinfra_key: String,
}

/// Where the configuration is read from, unless told otherwise.
pub const DEFAULT_CONFIG_PATH: &'static str = "config/config.toml";

/// The environment variables that hold secrets.
pub const SECRET_VARIABLES: [&'static str; 3] = ["TG_BOT_TOKEN", "OR_API_KEY", "DEEPINFRA_KEY"];

/// The place in the configuration of what the environment variable `name` holds.
pub open spec fn secret_place(name: Seq<char>) -> Seq<char> {
    if same_ignoring_ascii_case(name, "TG_BOT_TOKEN"@) {
        "secrets.tg_bot_token"@
    } else if same_ignoring_ascii_case(name, "OR_API_KEY"@) {
        "secrets.or_api_key"@
    } else if same_ignoring_ascii_case(name, "DEEPINFRA_KEY"@) {
        "secrets.deepinfra_key"@
    } else {
        name
    }
}

impl Config {
    /// The file that the configuration is read from: the one that the environment names,
    /// or else the usual one.
    pub fn path(named: Option<String>) -> (r: String)
        ensures
            r@ == (match named {
                Some(p) => p@,
                None => DEFAULT_CONFIG_PATH@,
            }),
    {
        match named {
            Some(p) => p,
            None => DEFAULT_CONFIG_PATH.to_owned(),
        }
    }

    /// The place in the configuration of what an environment variable holds.
    pub fn secret_key(name: &str) -> (r: String)
        ensures
            r@ == secret_place(name@),
    {
        if eq_ignore_ascii_case(name, "TG_BOT_TOKEN") {
            "secrets.tg_bot_token".to_owned()
        } else if eq_ignore_ascii_case(name, "OR_API_KEY") {
            "secrets.or_api_key".to_owned()
        } else if eq_ignore_ascii_case(name, "DEEPINFRA_KEY") {
            "secrets.deepinfra_key".to_owned()
        } else {
            name.to_owned()
        }
    }
}

/// A secret is found under its name in any case, and a variable that holds none keeps
/// its name.
pub proof fn law_secrets_are_found_in_any_case(name: Seq<char>)
    ensures
        same_ignoring_ascii_case(name, "TG_BOT_TOKEN"@) ==> secret_place(name)
            == "secrets.tg_bot_token"@,
        same_ignoring_ascii_case(name, "OR_API_KEY"@) ==> secret_place(name)
            == "secrets.or_api_key"@,
        same_ignoring_ascii_case(name, "DEEPINFRA_KEY"@) ==> secret_place(name)
            == "secrets.deepinfra_key"@,
        !same_ignoring_ascii_case(name, "TG_BOT_TOKEN"@) && !same_ignoring_ascii_case(
            name,
            "OR_API_KEY"@,
        ) && !same_ignoring_ascii_case(name, "DEEPINFRA_KEY"@) ==> secret_place(name) == name,
{
    reveal_strlit("TG_BOT_TOKEN");
    reveal_strlit("OR_API_KEY");
    reveal_strlit("DEEPINFRA_KEY");
}

} // verus!
