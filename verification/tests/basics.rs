//! Texts, encodings, numbers, errors, the configuration and the health report.
use ragtg_bot::bot::perceive::{perceive_media, PerceiveAction, PerceiveEvent};
use ragtg_bot::bot::incoming::Media;
use ragtg_bot::config::{Config, DEFAULT_CONFIG_PATH, SECRET_VARIABLES};
use ragtg_bot::encoding::{hex_lower, sha256_hex};
use ragtg_bot::error::{joined, Error};
use ragtg_bot::float_bits::FloatBits;
use ragtg_bot::health::{healthz, ComponentStatus, METRICS_BODY, METRICS_CONTENT_TYPE};
use ragtg_bot::storage::sqlite::{database_url, BUSY_TIMEOUT_MS};
use ragtg_bot::text::{
    chars_of, contains, copy_opt, ellipsize, eq_ignore_ascii_case, first_n, i64_to_string,
    is_blank, is_whitespace, join, opt_or, replace_char, same, starts_with, strip_prefix,
    strip_suffix, take_last_chars, trim, trim_end_matches, u64_to_string, usize_to_string,
};

fn texts(v: &[&str]) -> Vec<String> {
    v.iter().map(|s| s.to_string()).collect()
}

#[test]
fn whitespace_is_that_of_unicode() {
    for n in 0..=0x10_ffffu32 {
        if let Some(c) = char::from_u32(n) {
            assert_eq!(is_whitespace(c), c.is_whitespace(), "{n:#x}");
        }
    }
}

#[test]
fn numbers_are_written_in_base_ten() {
    for n in [0u64, 1, 9, 10, 99, 100, 1_234_567_890, u64::MAX] {
        assert_eq!(u64_to_string(n), n.to_string());
    }
    for i in [0i64, -1, 7, -100, i64::MIN, i64::MAX, -100_000_000_001] {
        assert_eq!(i64_to_string(i), i.to_string());
    }
    assert_eq!(usize_to_string(usize::MAX), usize::MAX.to_string());
    assert_ne!(i64_to_string(-12), i64_to_string(12));
}

#[test]
fn trimming_takes_what_std_takes() {
    for s in ["", " ", "a", " a ", "\u{a0}\u{2003}ж \n", "\u{200b}x\u{200b}", "a b", "\t\t"] {
        assert_eq!(trim(s), s.trim());
        assert_eq!(is_blank(s), s.trim().is_empty());
    }
    assert_eq!(trim_end_matches("https://x.y///", '/'), "https://x.y");
    assert_eq!(trim_end_matches("///", '/'), "");
    assert_eq!(trim_end_matches("a/b", '/'), "a/b");
}

#[test]
fn texts_are_cut_by_characters() {
    assert_eq!(first_n("привет", 3), "при");
    assert_eq!(first_n("привет", 60), "привет");
    assert_eq!(ellipsize("привет", 6), "привет");
    assert_eq!(ellipsize("привет!", 6), "привет…");
    assert_eq!(take_last_chars("привет", 2), "ет");
    assert_eq!(take_last_chars("привет", 0), "");
    assert_eq!(chars_of("aж").len(), 2);
}

#[test]
fn texts_are_searched() {
    assert!(same("ж", "ж") && !same("ж", "жж") && !same("a", "A"));
    assert!(contains("эй бот", "бот") && contains("x", "") && !contains("бо", "бот"));
    assert!(starts_with("/ask", "/") && starts_with("", "") && !starts_with("", "a"));
    assert_eq!(strip_prefix("data: x", "data: ").as_deref(), Some("x"));
    assert_eq!(strip_prefix("dat", "data"), None);
    assert_eq!(strip_suffix("x```", "```").as_deref(), Some("x"));
    assert_eq!(strip_suffix("x``", "```"), None);
    assert!(eq_ignore_ascii_case("@Bot_1", "@bOT_1"));
    assert!(!eq_ignore_ascii_case("Ж", "ж"));
}

#[test]
fn texts_are_put_together() {
    assert_eq!(replace_char("a<b<", '<', "&lt;"), "a&lt;b&lt;");
    assert_eq!(join(&texts(&["a", "", "b"]), ", "), "a, , b");
    assert_eq!(join(&texts(&[]), ", "), "");
    assert_eq!(opt_or(&None, "anon"), "anon");
    assert_eq!(opt_or(&Some("x".to_string()), "anon"), "x");
    assert_eq!(copy_opt(&Some("x".to_string())).as_deref(), Some("x"));
    assert_eq!(joined("a", "ж"), "aж");
}

#[test]
fn digests_are_those_of_sha256() {
    assert_eq!(
        sha256_hex(b"abc"),
        "ba7816bf8f01cfea414140de5dae2223b00361a396177a9cb410ff61f20015ad"
    );
    assert_eq!(
        sha256_hex(b""),
        "e3b0c44298fc1c149afbf4c8996fb92427ae41e4649b934ca495991b7852b855"
    );
    assert_eq!(hex_lower(&[0, 15, 16, 255, 0xab]), "000f10ffab");
    let all: Vec<u8> = (0..=255).collect();
    assert_eq!(hex_lower(&all), hex::encode(&all));
}

#[test]
fn a_file_is_cached_under_its_digest() {
    let mut m = Media::none();
    m.voice = Some("f".to_string());
    let (mut run, first, _) = perceive_media(&m);
    assert!(matches!(first, PerceiveAction::Download(f) if f == "f"));
    let next = run.advance(PerceiveEvent::Downloaded(b"abc".to_vec()));
    assert!(matches!(next, PerceiveAction::LookUp(s)
        if s == "ba7816bf8f01cfea414140de5dae2223b00361a396177a9cb410ff61f20015ad"));
}

#[test]
fn bit_patterns_compare_as_floats() {
    let all = [
        0.0f32, -0.0, 1.0, -1.0, 0.85, 0.95, 0.9500001, f32::MIN_POSITIVE, 1e-45, -1e-45, f32::MAX,
        f32::MIN, f32::INFINITY, f32::NEG_INFINITY, f32::NAN, -f32::NAN,
    ];
    for a in all {
        for b in all {
            let (x, y) = (FloatBits { bits: a.to_bits() }, FloatBits { bits: b.to_bits() });
            assert_eq!(x.ge(y), a >= b, "{a} >= {b}");
            assert_eq!(x.gt(y), a > b, "{a} > {b}");
        }
    }
    assert_eq!(f32::from_bits(FloatBits::one().bits), 1.0);
    assert_eq!(f32::from_bits(FloatBits::zero().bits), 0.0);
}

#[test]
fn errors_name_their_part() {
    let t = || "x".to_string();
    assert_eq!(Error::Sqlite(t()).message(), "sqlite error: x");
    assert_eq!(Error::Migrate(t()).message(), "sqlite migration error: x");
    assert_eq!(Error::Qdrant(t()).message(), "qdrant error: x");
    assert_eq!(Error::Redis(t()).message(), "redis error: x");
    assert_eq!(Error::OpenRouter(t()).message(), "openrouter error: x");
    assert_eq!(Error::Telegram(t()).message(), "telegram error: x");
    assert_eq!(Error::Config(t()).message(), "config error: x");
    assert_eq!(Error::Io(t()).message(), "io error: x");
    assert_eq!(Error::Env(t()).message(), "env error: x");
    assert_eq!(Error::Other(t()).message(), "x");
    assert_eq!(Error::Io(t()).copy().message(), "io error: x");
}

#[test]
fn configuration_is_found() {
    assert_eq!(Config::path(None), "config/config.toml");
    assert_eq!(Config::path(None), DEFAULT_CONFIG_PATH);
    assert_eq!(Config::path(Some("/etc/bot.toml".to_string())), "/etc/bot.toml");
    assert_eq!(SECRET_VARIABLES, ["TG_BOT_TOKEN", "OR_API_KEY", "DEEPINFRA_KEY"]);
    assert_eq!(Config::secret_key("TG_BOT_TOKEN"), "secrets.tg_bot_token");
    assert_eq!(Config::secret_key("or_api_key"), "secrets.or_api_key");
    assert_eq!(Config::secret_key("DEEPINFRA_KEY"), "secrets.deepinfra_key");
    assert_eq!(Config::secret_key("other"), "other");
}

#[test]
fn health_is_that_of_the_parts() {
    let good = || ComponentStatus::from_result(Ok(()));
    let (code, r) = healthz(good(), good(), good());
    assert_eq!((code, r.status), (200, "ok"));
    assert!(r.redis.ok && r.redis.error.is_none());
    let bad = ComponentStatus::from_result(Err(Error::Qdrant("gone".to_string())));
    let (code, r) = healthz(good(), bad, good());
    assert_eq!((code, r.status), (503, "degraded"));
    assert!(!r.qdrant.ok && r.sqlite.ok);
    assert_eq!(r.qdrant.error.as_deref(), Some("qdrant error: gone"));
    assert_eq!(METRICS_BODY, "# HELP up Whether the bot is running\n# TYPE up gauge\nup 1\n");
    assert_eq!(METRICS_CONTENT_TYPE, "text/plain; version=0.0.4");
}

#[test]
fn database_is_opened_by_url() {
    assert_eq!(database_url("./data/bot.db"), "sqlite://./data/bot.db");
    assert_eq!(BUSY_TIMEOUT_MS, 5000);
}
