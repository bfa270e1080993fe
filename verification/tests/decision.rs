//! Whether the bot answers.
use ragtg_bot::bot::incoming::{Entity, Incoming, Media, RepliedTo, Sender};
use ragtg_bot::config::DecisionConfig;
use ragtg_bot::decision::{
    has_mention, lower_alias_p, should_reply, text_alias_p, Decision, DecisionOutcome,
};
use ragtg_bot::float_bits::FloatBits;

fn bits(x: f32) -> FloatBits {
    FloatBits { bits: x.to_bits() }
}

fn value(x: FloatBits) -> f32 {
    f32::from_bits(x.bits)
}

fn cfg() -> DecisionConfig {
    DecisionConfig { mention_p: bits(1.0), reply_p: bits(1.0), alias_in_text_p: bits(1.0) }
}

fn group(text: Option<&str>) -> Incoming {
    Incoming {
        chat_id: -1,
        chat_title: Some("чат".to_string()),
        chat_username: None,
        private: false,
        message_id: 5,
        date: 100,
        from: Some(Sender { id: 7, username: None, first_name: "Аня".to_string() }),
        text: text.map(String::from),
        caption: None,
        entities: None,
        caption_entities: None,
        media: Media::none(),
        reply_to: None,
    }
}

fn decide(msg: &Incoming) -> Decision {
    let aliases = vec!["пидрила".to_string()];
    should_reply(msg, 42, "nugpuJIa_bot", &aliases, &cfg())
}

fn reply() -> Decision {
    Decision { reply: true, outcome: Some(DecisionOutcome::Reply) }
}

fn skip() -> Decision {
    Decision { reply: false, outcome: Some(DecisionOutcome::SkipNoTrigger) }
}

#[test]
fn alias_in_text_returns_one() {
    let aliases = vec!["пидрила".to_string(), "бот".to_string()];
    assert_eq!(value(text_alias_p("эй пидрила, как дела", &aliases, "nugpuJIa", &cfg())), 1.0);
    assert_eq!(value(text_alias_p("ну бот ты даёшь", &aliases, "nugpuJIa", &cfg())), 1.0);
}

#[test]
fn bot_username_in_text_returns_one() {
    let aliases: Vec<String> = vec![];
    assert_eq!(value(text_alias_p("hey nugpuJIa what's up", &aliases, "nugpuJIa", &cfg())), 1.0);
}

#[test]
fn no_trigger_returns_zero() {
    let aliases = vec!["пидрила".to_string()];
    assert_eq!(value(text_alias_p("привет всем как дела", &aliases, "nugpuJIa", &cfg())), 0.0);
}

#[test]
fn alias_match_is_case_insensitive() {
    let aliases = vec!["пидрила".to_string()];
    assert_eq!(value(text_alias_p("ПИДРИЛА ты тут?", &aliases, "nugpuJIa", &cfg())), 1.0);
}

#[test]
fn alias_probability_is_the_configured_one() {
    let half = DecisionConfig { alias_in_text_p: bits(0.5), ..cfg() };
    let aliases = vec!["бот".to_string()];
    assert_eq!(value(lower_alias_p("эй бот", "name", &aliases, &half)), 0.5);
    assert_eq!(value(lower_alias_p("эй Бот", "name", &aliases, &half)), 0.0);
    let d = should_reply(&group(Some("эй бот")), 42, "name", &aliases, &half);
    assert_eq!(d, skip());
}

#[test]
fn nothing_to_answer_is_not_counted() {
    assert_eq!(decide(&group(None)), Decision { reply: false, outcome: None });
}

#[test]
fn private_chats_are_always_answered() {
    let mut m = group(Some("что угодно"));
    m.private = true;
    assert_eq!(decide(&m), reply());
    m.text = None;
    m.media.voice = Some("file".to_string());
    assert_eq!(decide(&m), reply());
}

#[test]
fn mention_is_answered_whatever_its_case() {
    let mut m = group(Some("@NUGPUjia_bot ну"));
    m.entities = Some(vec![Entity { mention: true, text: "@NUGPUjia_bot".to_string() }]);
    assert!(has_mention(&m, "nugpuJIa_bot"));
    assert_eq!(decide(&m), reply());
    m.entities = Some(vec![Entity { mention: false, text: "@nugpuJIa_bot".to_string() }]);
    assert!(!has_mention(&m, "nugpuJIa_bot"));
    m.entities = Some(vec![]);
    m.caption_entities = Some(vec![Entity { mention: true, text: "@nugpuJIa_bot".to_string() }]);
    assert!(!has_mention(&m, "nugpuJIa_bot"));
    m.entities = None;
    assert!(has_mention(&m, "nugpuJIa_bot"));
}

#[test]
fn answers_to_the_bot_are_answered() {
    let mut m = group(Some("и что"));
    m.reply_to = Some(RepliedTo { from_id: Some(42), media: Media::none() });
    assert_eq!(decide(&m), reply());
    m.reply_to = Some(RepliedTo { from_id: Some(43), media: Media::none() });
    assert_eq!(decide(&m), skip());
    m.reply_to = Some(RepliedTo { from_id: None, media: Media::none() });
    assert_eq!(decide(&m), skip());
}

#[test]
fn names_in_the_text_are_answered() {
    assert_eq!(decide(&group(Some("ПиДРиЛа, подъём"))), reply());
    assert_eq!(decide(&group(Some("спроси у NUGPUJIA_BOT"))), reply());
    assert_eq!(decide(&group(Some("просто разговор"))), skip());
    let mut m = group(None);
    m.caption = Some("пидрила, зацени".to_string());
    m.media.photos = Some(vec!["p".to_string()]);
    assert_eq!(decide(&m), reply());
}

#[test]
fn a_probability_below_one_keeps_silent() {
    let low = DecisionConfig { mention_p: bits(0.99), reply_p: bits(f32::NAN), ..cfg() };
    let none: Vec<String> = vec![];
    let mut m = group(Some("@b"));
    m.entities = Some(vec![Entity { mention: true, text: "@b".to_string() }]);
    let d = should_reply(&m, 42, "b", &none, &low);
    assert_eq!(d, Decision { reply: false, outcome: Some(DecisionOutcome::Reply) });
    m.entities = None;
    m.reply_to = Some(RepliedTo { from_id: Some(42), media: Media::none() });
    let d = should_reply(&m, 42, "zzz", &none, &low);
    assert_eq!(d, Decision { reply: false, outcome: Some(DecisionOutcome::Reply) });
}

#[test]
fn outcomes_have_their_labels() {
    assert_eq!(DecisionOutcome::Reply.label(), "reply");
    assert_eq!(DecisionOutcome::SkipNoTrigger.label(), "skip_no_trigger");
}
