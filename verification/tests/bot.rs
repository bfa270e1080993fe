//! Commands, messages, media and answers.
use ragtg_bot::bot::answer_stream::{
    stream_to_chat, StreamAction, StreamEvent, EMPTY_TEXT, THINKING_TEXT, UNAVAILABLE_TEXT,
    WAIT_TEXT,
};
use ragtg_bot::bot::chunks::chunk_message;
use ragtg_bot::bot::commands::{
    handle, handle_ask, handle_window, html_escape, info_text, is_admin, start_text, stats_text,
    window_failed, Command, CommandStep, ASK_FREE_PROMPT, ASK_PROMPT, HELP_TEXT, NO_QUESTION,
};
use ragtg_bot::bot::handlers::{
    chat_label, classify_media, clip_text, download_file_bytes, format_current_msg,
    format_window_msg, handle_message, persist_bot_reply, save_message, HandleEvent, HandleStep,
    Perceived, MAX_MEDIA_BYTES,
};
use ragtg_bot::bot::incoming::{
    detect_media, extract_text, Document, Incoming, Media, RepliedTo, Sender, Sticker,
};
use ragtg_bot::bot::perceive::{
    perceive_and_persist, perceive_media, PerceiveAction, PerceiveEvent, PersistEvent, PersistStep,
};
use ragtg_bot::bot::reply::{build_messages, media_target, reply, ReplyAction, ReplyEvent, Target};
use ragtg_bot::config::{
    BotConfig, Config, DecisionConfig, EmbeddingsConfig, EventsConfig, MemoryConfig,
    ObservabilityConfig, OpenRouterConfig, QdrantConfig, RateLimitConfig, RedisConfig, Secrets,
    SqliteConfig,
};
use ragtg_bot::error::Error;
use ragtg_bot::float_bits::FloatBits;
use ragtg_bot::llm::client::{Message, MessageContent, StreamChoice, StreamChunk, StreamDelta};
use ragtg_bot::memory::working::WorkingMessage;

fn s(t: &str) -> String {
    t.to_string()
}

fn incoming(text: Option<&str>) -> Incoming {
    Incoming {
        chat_id: -5,
        chat_title: None,
        chat_username: Some(s("chat")),
        private: false,
        message_id: 9,
        date: 1_700_000_000,
        from: Some(Sender { id: 7, username: None, first_name: s("Аня") }),
        text: text.map(s),
        caption: None,
        entities: None,
        caption_entities: None,
        media: Media::none(),
        reply_to: None,
    }
}

fn entry(user_id: i64, name: Option<&str>, text: &str, desc: Option<&str>) -> WorkingMessage {
    WorkingMessage {
        user_id,
        username: name.map(s),
        text: s(text),
        media_desc: desc.map(s),
        ts: 1,
        tg_message_id: None,
    }
}

fn openrouter() -> OpenRouterConfig {
    OpenRouterConfig {
        base_url: s("https://openrouter.ai/api/v1/"),
        model_main: s("main<1>"),
        model_pro: s("pro"),
        model_ask_free: s("free"),
        model_vision: s("eye"),
        model_decision: s("dec"),
        vision_fallbacks: vec![],
        timeout_sec: 60,
        max_retries: 3,
    }
}

fn config() -> Config {
    let one = FloatBits::one();
    Config {
        bot: BotConfig {
            admin_ids: vec![1, 42],
            default_personality: s("p"),
            aliases: vec![s("бот"), s("a&b")],
        },
        openrouter: openrouter(),
        embeddings: EmbeddingsConfig { base_url: s("e"), embedding_model: s("m") },
        sqlite: SqliteConfig { path: s("x.db"), max_connections: 1 },
        qdrant: QdrantConfig { url: s("q") },
        redis: RedisConfig { url: s("r") },
        memory: MemoryConfig {
            working_window_size: 30,
            working_ttl_days: 7,
            episodic_summary_every_n: 50,
            episodic_summary_lookback: 50,
            facts_extraction_every_n: 20,
            facts_lookback: 20,
            top_k_summaries: 3,
            top_k_facts: 5,
            top_k_events: 3,
            top_k_lore: 3,
            fact_dedup_threshold: one,
        },
        ratelimit: RateLimitConfig {
            user_cooldown_sec: 1,
            chat_max_per_min: 1,
            vision_concurrent: 1,
        },
        decision: DecisionConfig { mention_p: one, reply_p: one, alias_in_text_p: one },
        events: EventsConfig {
            buffer_threshold: 10,
            score_model: s("sm"),
            score_fallbacks: vec![],
            score_min: 7,
            dedup_threshold: one,
        },
        observability: ObservabilityConfig { metrics_port: 1, healthz_port: 2, log_level: s("i") },
        secrets: Secrets { tg_bot_token: s("t"), or_api_key: s("o"), deepinfra_key: s("d") },
    }
}

fn text_of(m: &Message) -> &str {
    match &m.content {
        MessageContent::Text(t) => t,
        _ => panic!("no text"),
    }
}

fn chunk(text: Option<&str>) -> StreamChunk {
    StreamChunk {
        choices: vec![StreamChoice {
            delta: StreamDelta { content: text.map(s), reasoning: Some(s("hm")) },
        }],
    }
}

#[test]
fn escaped_text_has_no_tags() {
    assert_eq!(html_escape("<b>a & b</b>"), "&lt;b&gt;a &amp; b&lt;/b&gt;");
    assert_eq!(html_escape("&lt;"), "&amp;lt;");
    assert_eq!(html_escape("<a") + &html_escape("&b"), html_escape("<a&b"));
    assert_eq!(html_escape("привет"), "привет");
}

#[test]
fn pieces_are_cut_at_line_ends() {
    assert_eq!(chunk_message("ab\ncd\nef", 6), vec!["ab\ncd\n", "ef"]);
    assert_eq!(chunk_message("ab\ncd\nef", 100), vec!["ab\ncd\nef"]);
    assert_eq!(chunk_message("abcdefgh\nx", 3), vec!["abc", "def", "gh\n", "x"]);
    assert_eq!(chunk_message("привет", 4), vec!["прив", "ет"]);
    assert_eq!(chunk_message("", 10), vec![""]);
}

#[test]
fn pieces_make_up_the_text_and_fit() {
    let text = "строка один\nдлинная строка без конца и края\n\n\nx\n".repeat(20);
    for limit in [1usize, 2, 7, 31, 32, 33, 100, 4000] {
        let parts = chunk_message(&text, limit);
        assert_eq!(parts.concat(), text);
        assert!(parts.iter().all(|p| !p.is_empty() && p.chars().count() <= limit));
    }
}

#[test]
fn greeting_names_the_aliases() {
    let t = start_text(&vec![s("бот"), s("a&b")]);
    assert!(t.contains(
        "\n<b>Чтобы позвать меня</b>, напиши: <b>бот</b>, <b>a&amp;b</b> или сделай реплай на любое моё сообщение."
    ));
    assert!(!start_text(&vec![]).contains("Чтобы позвать меня"));
}

#[test]
fn info_names_the_models() {
    let t = info_text(&openrouter());
    let places: Vec<usize> = ["main&lt;1&gt;", "pro</code>", "free</code>", "eye</code>", "dec</code>"]
        .iter()
        .map(|m| t.find(m).unwrap())
        .collect();
    assert!(places.windows(2).all(|w| w[0] < w[1]));
    assert!(!t.contains("main<1>"));
}

#[test]
fn counts_are_reported() {
    assert_eq!(stats_text(Some(12)), "в этом чате 12 сообщений");
    assert_eq!(stats_text(None), "не смог посчитать, ну и хрен с ним");
}

#[test]
fn administrators_are_those_listed() {
    let bot = config().bot;
    let mut m = incoming(None);
    assert!(!is_admin(&m, &bot));
    m.from = Some(Sender { id: 42, username: None, first_name: s("x") });
    assert!(is_admin(&m, &bot));
    m.from = None;
    assert!(!is_admin(&m, &bot));
}

#[test]
fn commands_lead_where_they_should() {
    let cfg = config();
    let user = incoming(Some("/x"));
    let mut admin = incoming(Some("/x"));
    admin.from = Some(Sender { id: 42, username: None, first_name: s("x") });
    let mut nobody = incoming(Some("/x"));
    nobody.from = None;
    assert!(matches!(handle(&Command::Start, &user, &cfg), CommandStep::SendHtml(t)
        if t == start_text(&cfg.bot.aliases)));
    assert!(matches!(handle(&Command::Help, &user, &cfg), CommandStep::SendHtml(t)
        if t == HELP_TEXT));
    assert!(matches!(handle(&Command::Info, &user, &cfg), CommandStep::SendHtml(t)
        if t == info_text(&cfg.openrouter)));
    assert!(matches!(handle(&Command::Ping, &user, &cfg), CommandStep::Send(t) if t == "pong"));
    assert!(matches!(handle(&Command::Stats, &user, &cfg), CommandStep::Count));
    assert!(matches!(handle(&Command::Window, &user, &cfg), CommandStep::Ignore));
    assert!(matches!(handle(&Command::Window, &admin, &cfg), CommandStep::ListWindow));
    assert!(matches!(handle(&Command::Ask(s(" \n")), &admin, &cfg), CommandStep::Send(t)
        if t == NO_QUESTION));
    assert!(matches!(handle(&Command::Ask(s("что")), &user, &cfg), CommandStep::Cooldown(7)));
    assert!(matches!(handle(&Command::Ask(s("что")), &nobody, &cfg), CommandStep::Cooldown(0)));
    match handle(&Command::Ask(s("что")), &admin, &cfg) {
        CommandStep::Stream { model, messages, label } => {
            assert_eq!((model.as_str(), label.as_str()), ("pro", "/ask"));
            assert_eq!(messages.len(), 2);
            assert_eq!((messages[0].role.as_str(), text_of(&messages[0])), ("system", ASK_PROMPT));
            assert_eq!((messages[1].role.as_str(), text_of(&messages[1])), ("user", "что"));
        }
        _ => panic!("no stream"),
    }
    assert!(matches!(handle(&Command::AskFree(s("")), &user, &cfg), CommandStep::Send(t)
        if t == NO_QUESTION));
    match handle(&Command::AskFree(s("q")), &user, &cfg) {
        CommandStep::Stream { model, messages, label } => {
            assert_eq!((model.as_str(), label.as_str()), ("free", "/askfree"));
            assert_eq!(text_of(&messages[0]), ASK_FREE_PROMPT);
        }
        _ => panic!("no stream"),
    }
}

#[test]
fn a_user_who_asks_too_soon_is_told_so() {
    match handle_ask("q", 65, &openrouter()) {
        CommandStep::Answer(t) => assert_eq!(
            t,
            "подожди, ты уже спрашивал. следующий вопрос можно будет задать через 1 мин. 5 сек."
        ),
        _ => panic!("no answer"),
    }
    assert!(matches!(handle_ask("q", 0, &openrouter()), CommandStep::Stream { .. }));
}

#[test]
fn window_is_listed() {
    assert_eq!(handle_window(&vec![]), vec!["окно пустое"]);
    let long = "ж".repeat(121);
    let w = vec![entry(1, Some("ann"), "привет", None), entry(2, None, &long, Some("кот"))];
    assert_eq!(
        handle_window(&w).concat(),
        format!(
            "working window (2 msgs):\n1. @ann: привет\n2. uid:2 [media]: {}\n",
            "ж".repeat(120)
        )
    );
    let many: Vec<WorkingMessage> = (0..100).map(|i| entry(i, None, &long, None)).collect();
    assert!(handle_window(&many).iter().all(|p| p.chars().count() <= 4000));
    assert_eq!(window_failed(&Error::Redis(s("x"))), "redis сломался: redis error: x");
}

#[test]
fn texts_and_media_of_a_message() {
    let mut m = incoming(None);
    assert_eq!(extract_text(&m), None);
    m.caption = Some(s("подпись"));
    assert_eq!(extract_text(&m).as_deref(), Some("подпись"));
    m.text = Some(s("текст"));
    assert_eq!(extract_text(&m).as_deref(), Some("текст"));
    assert!(!detect_media(&m.media));
    m.media.video = true;
    assert!(detect_media(&m.media));
    assert_eq!(chat_label(&m).as_deref(), Some("chat"));
    m.chat_title = Some(s("Чат"));
    assert_eq!(chat_label(&m).as_deref(), Some("Чат"));
    assert_eq!(clip_text(Some("ж".repeat(9000))), Some("ж".repeat(8000)));
    assert_eq!(clip_text(None), None);
}

#[test]
fn lines_for_the_model() {
    assert_eq!(format_window_msg(&entry(3, None, "да", None)), "uid:3: да");
    assert_eq!(format_window_msg(&entry(3, Some("bob"), "да", Some("кот"))), "bob: да [кот]");
    let mut m = incoming(None);
    assert_eq!(format_current_msg(&m, "ну"), "Аня: ну");
    m.from = Some(Sender { id: 1, username: Some(s("ann")), first_name: s("Аня") });
    assert_eq!(format_current_msg(&m, "ну"), "ann: ну");
    m.from = None;
    assert_eq!(format_current_msg(&m, "ну"), "anon: ну");
}

#[test]
fn only_pictures_and_voices_are_described() {
    let mut m = Media::none();
    m.video = true;
    m.audio = true;
    m.animation = true;
    m.video_note = true;
    m.photos = Some(vec![]);
    assert!(classify_media(&m).is_none());
    m.document = Some(Document { file_id: s("d"), mime: Some(s("text/plain")) });
    m.sticker = Some(Sticker { file_id: s("st"), animated: true, video: false });
    assert!(classify_media(&m).is_none());
    m.document = Some(Document { file_id: s("d"), mime: Some(s("image/png")) });
    assert!(matches!(classify_media(&m), Some(Perceived::Image { file_id, mime })
        if file_id == "d" && mime == "image/png"));
    m.sticker = Some(Sticker { file_id: s("st"), animated: false, video: false });
    assert!(matches!(classify_media(&m), Some(Perceived::Image { file_id, mime })
        if file_id == "st" && mime == "image/webp"));
    m.voice = Some(s("v"));
    assert!(matches!(classify_media(&m), Some(Perceived::Voice { file_id }) if file_id == "v"));
    m.photos = Some(vec![s("small"), s("large")]);
    assert!(matches!(classify_media(&m), Some(Perceived::Image { file_id, mime })
        if file_id == "large" && mime == "image/jpeg"));
}

#[test]
fn messages_are_kept() {
    let mut m = incoming(Some("привет"));
    let k = save_message(&m, None).unwrap();
    assert_eq!((k.user_id, k.chat_id, k.tg_message_id), (7, -5, 9));
    assert_eq!(k.chat_title.as_deref(), Some("chat"));
    assert_eq!(k.text.as_deref(), Some("привет"));
    assert!(!k.has_media);
    let e = k.entry.unwrap();
    assert_eq!((e.text.as_str(), e.ts, e.tg_message_id), ("привет", 1_700_000_000, Some(9)));
    m.text = None;
    assert!(save_message(&m, None).unwrap().entry.is_none());
    assert_eq!(save_message(&m, Some(s("кот"))).unwrap().entry.unwrap().media_desc, Some(s("кот")));
    m.media.voice = Some(s("v"));
    let k = save_message(&m, None).unwrap();
    assert!(k.has_media);
    assert_eq!(k.entry.unwrap().text, "");
    m.from = None;
    assert!(save_message(&m, None).is_none());
}

#[test]
fn answers_of_the_bot_are_kept() {
    let mut m = incoming(Some("ответ"));
    let k = persist_bot_reply(&m, 99, "pidrila_bot");
    assert_eq!((k.user_id, k.first_name.as_str(), k.has_media), (99, "pidrila_bot", false));
    assert_eq!(k.username.as_deref(), Some("pidrila_bot"));
    assert_eq!(k.entry.unwrap().user_id, 99);
    m.text = None;
    assert!(persist_bot_reply(&m, 99, "b").entry.is_none());
}

#[test]
fn files_are_taken_up_to_the_cap() {
    let mut buf = vec![1u8];
    assert!(download_file_bytes(&mut buf, &[2, 3]).is_ok());
    assert_eq!(buf, vec![1, 2, 3]);
    let mut buf = vec![0u8; MAX_MEDIA_BYTES - 1];
    assert!(download_file_bytes(&mut buf, &[7]).is_ok());
    assert_eq!(buf.len(), MAX_MEDIA_BYTES);
    match download_file_bytes(&mut buf, &[7]) {
        Err(e) => assert_eq!(e.message(), "media exceeds 10485760 bytes during stream"),
        Ok(()) => panic!("too large"),
    }
    assert_eq!(buf.len(), MAX_MEDIA_BYTES);
}

#[test]
fn handling_answers_only_with_leave() {
    let m = incoming(Some("x"));
    let (did, yes, no, bad) =
        (HandleEvent::Did, HandleEvent::Said(true), HandleEvent::Said(false), HandleEvent::Failed);
    assert_eq!(handle_message(&m, &[]), HandleStep::Save);
    let background = HandleStep::Background { perceive: false, user_id: Some(7) };
    assert_eq!(handle_message(&m, &[bad]), background);
    assert_eq!(handle_message(&m, &[did, did]), HandleStep::Decide);
    assert_eq!(handle_message(&m, &[did, did, yes]), HandleStep::Limit);
    assert_eq!(handle_message(&m, &[did, did, no]), HandleStep::Done);
    assert_eq!(handle_message(&m, &[did, did, yes, yes]), HandleStep::Reply);
    assert_eq!(handle_message(&m, &[did, did, yes, no]), HandleStep::Done);
    assert_eq!(handle_message(&m, &[did, did, yes, bad]), HandleStep::Done);
    assert_eq!(handle_message(&m, &[did, did, yes, yes, did]), HandleStep::Done);
}

#[test]
fn describing_gives_the_slot_back() {
    let mut m = Media::none();
    m.photos = Some(vec![s("p")]);
    let (mut run, a, kind) = perceive_media(&m);
    assert!(matches!(a, PerceiveAction::Download(f) if f == "p"));
    assert!(matches!(kind, Some(Perceived::Image { .. })));
    run.advance(PerceiveEvent::Downloaded(b"abc".to_vec()));
    assert!(matches!(run.advance(PerceiveEvent::Cached(None)), PerceiveAction::Acquire));
    assert!(matches!(run.advance(PerceiveEvent::Acquired(true)), PerceiveAction::Describe));
    let a = run.advance(PerceiveEvent::Failed);
    assert!(matches!(a, PerceiveAction::Release));
    assert!(matches!(run.advance(PerceiveEvent::Did), PerceiveAction::Done(None)));
}

#[test]
fn descriptions_are_cached() {
    let mut m = Media::none();
    m.voice = Some(s("v"));
    let (mut run, _, _) = perceive_media(&m);
    run.advance(PerceiveEvent::Downloaded(b"abc".to_vec()));
    run.advance(PerceiveEvent::Failed);
    run.advance(PerceiveEvent::Acquired(true));
    run.advance(PerceiveEvent::Described(s("голос")));
    assert!(matches!(run.advance(PerceiveEvent::Did), PerceiveAction::Cache { sha, desc }
        if sha.starts_with("ba7816bf") && desc == "голос"));
    let a = run.advance(PerceiveEvent::Failed);
    assert!(matches!(a, PerceiveAction::Done(Some(d)) if d == "голос"));
}

#[test]
fn describing_ends_early() {
    let (_, a, kind) = perceive_media(&Media::none());
    assert!(matches!(a, PerceiveAction::Done(None)) && kind.is_none());
    let mut m = Media::none();
    m.voice = Some(s("v"));
    let (mut run, _, _) = perceive_media(&m);
    assert!(matches!(run.advance(PerceiveEvent::Downloaded(vec![])), PerceiveAction::Done(None)));
    let (mut run, _, _) = perceive_media(&m);
    run.advance(PerceiveEvent::Downloaded(vec![1]));
    let a = run.advance(PerceiveEvent::Cached(Some(s("было"))));
    assert!(matches!(a, PerceiveAction::Done(Some(d)) if d == "было"));
    let (mut run, _, _) = perceive_media(&m);
    run.advance(PerceiveEvent::Downloaded(vec![1]));
    run.advance(PerceiveEvent::Cached(None));
    assert!(matches!(run.advance(PerceiveEvent::Acquired(false)), PerceiveAction::Done(None)));
    let (mut run, _, _) = perceive_media(&m);
    run.advance(PerceiveEvent::Downloaded(vec![1]));
    run.advance(PerceiveEvent::Cached(None));
    let a = run.advance(PerceiveEvent::Failed);
    assert!(matches!(a, PerceiveAction::Done(None)));
}

#[test]
fn descriptions_are_written_down() {
    let d = Some(s("кот"));
    assert!(matches!(perceive_and_persist(&None, &[]), PersistStep::Nothing));
    assert!(matches!(perceive_and_persist(&d, &[]), PersistStep::UpdateRow(t) if t == "кот"));
    let one = [PersistEvent::Did];
    assert!(matches!(perceive_and_persist(&d, &one), PersistStep::PatchWindow(t) if t == "кот"));
    let two = [PersistEvent::Did, PersistEvent::Did];
    assert!(matches!(perceive_and_persist(&d, &two), PersistStep::Done));
    let bad = [PersistEvent::Failed(Error::Sqlite(s("x")))];
    assert!(matches!(perceive_and_persist(&d, &bad), PersistStep::Fail(Error::Sqlite(_))));
}

#[test]
fn prompt_of_an_answer() {
    let people = vec![(s("ann"), vec![s("любит чай"), s("живёт в Туле")])];
    let v = build_messages(
        "SYS",
        &vec![s("было то")],
        &people,
        &vec![s("момент")],
        &vec![entry(1, Some("bob"), "да", None)],
        "ann: ну",
        &Some(s("кот")),
    );
    let roles: Vec<&str> = v.iter().map(|m| m.role.as_str()).collect();
    assert_eq!(roles, vec!["system", "system", "system", "system", "user", "user"]);
    let texts: Vec<&str> = v.iter().map(text_of).collect();
    assert_eq!(
        texts,
        vec![
            "SYS",
            "[Релевантный контекст из прошлого чата]:\n- было то\n",
            "[Известные факты о участниках]:\n@ann:\n  - любит чай\n  - живёт в Туле\n",
            "[Релевантные моменты из этого чата]:\n- момент\n",
            "bob: да",
            "ann: ну [Изображение/Голосовое: кот]",
        ]
    );
    let bare = build_messages("SYS", &vec![], &vec![], &vec![], &vec![], "ann: ну", &None);
    assert_eq!(bare.len(), 2);
    assert_eq!(text_of(&bare[1]), "ann: ну");
}

#[test]
fn answering_goes_step_by_step() {
    let mut m = incoming(Some("глянь"));
    assert!(matches!(media_target(&m), Target::Nothing));
    let mut shown = Media::none();
    shown.photos = Some(vec![s("p")]);
    m.reply_to = Some(RepliedTo { from_id: None, media: shown });
    assert!(matches!(media_target(&m), Target::RepliedTo));
    let (mut run, a) = reply(&m, "SYS", "model");
    assert!(matches!(a, ReplyAction::ReadWindow));
    let a = run.advance(ReplyEvent::Window(vec![entry(1, Some("bob"), "да", None)]));
    assert!(matches!(a, ReplyAction::Perceive(Target::RepliedTo)));
    let a = run.advance(ReplyEvent::Described(Some(s("кот"))));
    assert!(matches!(a, ReplyAction::Embed(t) if t == "глянь"));
    let a = run.advance(ReplyEvent::Failed(Error::Other(s("x"))));
    assert!(matches!(a, ReplyAction::FindSummaries));
    let a = run.advance(ReplyEvent::Summaries(vec![s("c")]));
    assert!(matches!(a, ReplyAction::FindPeople));
    let a = run.advance(ReplyEvent::Failed(Error::Other(s("x"))));
    assert!(matches!(a, ReplyAction::FindMoments));
    match run.advance(ReplyEvent::Moments(vec![])) {
        ReplyAction::Ask { model, messages } => {
            assert_eq!(model, "model");
            assert_eq!(messages.len(), 4);
            assert_eq!(text_of(&messages[3]), "Аня: глянь [Изображение/Голосовое: кот]");
        }
        _ => panic!("nobody asked"),
    }
    let a = run.advance(ReplyEvent::Answered(s("  ок \n")));
    assert!(matches!(a, ReplyAction::Send(t) if t == "ок"));
    assert!(matches!(run.advance(ReplyEvent::Did), ReplyAction::Persist));
    assert!(matches!(run.advance(ReplyEvent::Did), ReplyAction::Done));
}

#[test]
fn blank_and_failed_answers_are_not_sent() {
    let m = incoming(Some("x"));
    let ask = || {
        let (mut run, _) = reply(&m, "SYS", "model");
        run.advance(ReplyEvent::Window(vec![]));
        run.advance(ReplyEvent::Did);
        run.advance(ReplyEvent::Summaries(vec![]));
        run.advance(ReplyEvent::People(vec![]));
        let a = run.advance(ReplyEvent::Moments(vec![]));
        assert!(matches!(a, ReplyAction::Ask { .. }));
        run
    };
    assert!(matches!(ask().advance(ReplyEvent::Answered(s(" \n"))), ReplyAction::Done));
    let a = ask().advance(ReplyEvent::Failed(Error::OpenRouter(s("x"))));
    assert!(matches!(a, ReplyAction::Fail(Error::OpenRouter(_))));
}

#[test]
fn streamed_answer_goes_out() {
    let (mut run, a) = stream_to_chat();
    assert!(matches!(a, StreamAction::Place(t) if t == WAIT_TEXT));
    assert!(matches!(run.advance(&StreamEvent::Did), StreamAction::Open));
    assert!(matches!(run.advance(&StreamEvent::Did), StreamAction::Read));
    let a = run.advance(&StreamEvent::Chunk { chunk: chunk(None), overdue: true });
    assert!(matches!(a, StreamAction::Edit { text, html: false } if text == THINKING_TEXT));
    assert!(matches!(run.advance(&StreamEvent::Failed), StreamAction::Read));
    let first = "a".repeat(3900);
    let a = run.advance(&StreamEvent::Chunk { chunk: chunk(Some(&first)), overdue: false });
    assert!(matches!(a, StreamAction::Read));
    let a = run.advance(&StreamEvent::Chunk { chunk: chunk(Some("конец")), overdue: true });
    match a {
        StreamAction::Edit { text, html: false } => {
            assert_eq!(text, format!("✍️ Пишу ответ...\n\n{}конец", "a".repeat(3795)));
        }
        _ => panic!("no edit"),
    }
    run.advance(&StreamEvent::Did);
    let a = run.advance(&StreamEvent::Over);
    assert!(matches!(a, StreamAction::Edit { text, html: true } if text == first));
    let a = run.advance(&StreamEvent::Failed);
    assert!(matches!(a, StreamAction::Edit { text, html: false } if text == first));
    let a = run.advance(&StreamEvent::Did);
    assert!(matches!(a, StreamAction::Send { text, html: true } if text == "конец"));
    let a = run.advance(&StreamEvent::Failed);
    assert!(matches!(a, StreamAction::Send { text, html: false } if text == "конец"));
    assert!(matches!(run.advance(&StreamEvent::Failed), StreamAction::Done));
}

#[test]
fn opening_is_tried_three_times() {
    let (mut run, _) = stream_to_chat();
    run.advance(&StreamEvent::Did);
    assert!(matches!(run.advance(&StreamEvent::Failed), StreamAction::Sleep(500)));
    assert!(matches!(run.advance(&StreamEvent::Did), StreamAction::Open));
    assert!(matches!(run.advance(&StreamEvent::Failed), StreamAction::Sleep(1000)));
    assert!(matches!(run.advance(&StreamEvent::Did), StreamAction::Open));
    let a = run.advance(&StreamEvent::Failed);
    assert!(matches!(a, StreamAction::Edit { text, html: false } if text == UNAVAILABLE_TEXT));
    assert!(matches!(run.advance(&StreamEvent::Did), StreamAction::Done));
}

#[test]
fn empty_stream_is_reported() {
    let (mut run, _) = stream_to_chat();
    run.advance(&StreamEvent::Did);
    run.advance(&StreamEvent::Did);
    run.advance(&StreamEvent::Chunk { chunk: chunk(Some(" \n")), overdue: false });
    let none = StreamChunk { choices: vec![] };
    let a = run.advance(&StreamEvent::Chunk { chunk: none, overdue: true });
    assert!(matches!(a, StreamAction::Read));
    let a = run.advance(&StreamEvent::Failed);
    assert!(matches!(a, StreamAction::Edit { text, html: false } if text == EMPTY_TEXT));
    assert!(matches!(run.advance(&StreamEvent::Did), StreamAction::Done));
    let (mut run, _) = stream_to_chat();
    assert!(matches!(run.advance(&StreamEvent::Failed), StreamAction::Fail));
}
