//! The language-model services: requests, retries, streams, prompts.
use ragtg_bot::error::Error;
use ragtg_bot::llm::client::{
    backoff_ms, retryable_status, stream_error, success_status, system_and_user, truncate,
    Attempt, ChatResponse, Choice, ContentBlock, Message, MessageContent, OpenRouterClient,
    StreamFault, Usage, Verdict,
};
use ragtg_bot::llm::embeddings::{EmbedAttempt, EmbedVerdict, EmbeddingClient};
use ragtg_bot::llm::perception::{
    describe_image, image_message, models_to_try, transcribe_voice, trim_desc, voice_message,
    Answer, DescribeStep,
};
use ragtg_bot::llm::prompt_builder::{assemble, format_window_msg, Layers};
use ragtg_bot::llm::prompts::persona::CORE_PERSONA;
use ragtg_bot::llm::prompts::system::{full_system_prompt, FewShot, SYSTEM_PROMPT_BASE};
use ragtg_bot::llm::prompts::vision::{IMAGE_PROMPT, VOICE_PROMPT};
use ragtg_bot::llm::stream::{read_line, EventBuffer, Line};
use ragtg_bot::memory::working::WorkingMessage;

fn s(t: &str) -> String {
    t.to_string()
}

fn client() -> OpenRouterClient {
    OpenRouterClient::new(s("https://openrouter.ai/api/v1//"), s("sk-ключ"), 60, 2)
}

fn embedder() -> EmbeddingClient {
    EmbeddingClient::new(s("https://api.deepinfra.com/v1/openai"), s("k"), s("bge-m3"), 30, 2)
}

fn replied(status: u16, body: &str, parsed: Option<ChatResponse>) -> Attempt {
    Attempt::Replied { status, status_text: format!("{status} X"), body: s(body), parsed, latency_ms: 7 }
}

fn response(content: Option<&str>, reasoning: Option<&str>, usage: Option<Usage>) -> Option<ChatResponse> {
    Some(ChatResponse {
        choices: vec![Choice { content: content.map(s), reasoning: reasoning.map(s) }],
        usage,
    })
}

fn text_of(m: &Message) -> &str {
    match &m.content {
        MessageContent::Text(t) => t,
        _ => panic!("no text"),
    }
}

fn failure(v: Verdict) -> (String, bool) {
    match v {
        Verdict::Fail { error, counted } => (error.message(), counted),
        _ => panic!("no failure"),
    }
}

#[test]
fn pauses_double_up_to_eight_seconds() {
    let got: Vec<u64> = (0..7).map(backoff_ms).collect();
    assert_eq!(got, vec![500, 1000, 2000, 4000, 8000, 8000, 8000]);
    assert_eq!(backoff_ms(u32::MAX), 8000);
}

#[test]
fn statuses_are_told_apart() {
    for status in 100..=700u16 {
        assert_eq!(success_status(status), (200..300).contains(&status));
        assert_eq!(retryable_status(status), status == 429 || (500..600).contains(&status));
    }
}

#[test]
fn bodies_are_shown_on_one_line() {
    assert_eq!(truncate("a\r\nb\nc", 100), "a b c");
    assert_eq!(truncate("абвгд", 3), "абв…");
    assert_eq!(truncate("абв", 3), "абв");
}

#[test]
fn requests_name_key_and_kind() {
    let c = client();
    assert_eq!(c.url(), "https://openrouter.ai/api/v1/chat/completions");
    let headers = match c.headers() {
        Ok(h) => h,
        Err(e) => panic!("{}", e.message()),
    };
    assert_eq!(
        headers,
        vec![
            (s("authorization"), s("Bearer sk-ключ")),
            (s("content-type"), s("application/json")),
            (s("HTTP-Referer"), s("https://github.com/undergodst/ragtg-bot")),
            (s("X-Title"), s("ragtg-bot")),
        ]
    );
    let e = embedder();
    assert_eq!(e.url(), "https://api.deepinfra.com/v1/openai/embeddings");
    assert!(matches!(e.headers(), Ok(h) if h.len() == 2 && h[0].1 == "Bearer k"));
}

#[test]
fn a_key_that_no_header_can_hold_is_refused() {
    for key in ["a\nb", "\u{7f}", "\u{0}", "a\rb"] {
        let c = OpenRouterClient::new(s("u"), s(key), 1, 0);
        match c.headers() {
            Err(e) => assert_eq!(
                e.message(),
                "openrouter error: auth header: failed to parse header value"
            ),
            Ok(_) => panic!("taken: {key:?}"),
        }
    }
    for key in ["a\tb", "", "\u{80}", "ключ", "~"] {
        assert!(OpenRouterClient::new(s("u"), s(key), 1, 0).headers().is_ok());
    }
}

#[test]
fn completion_requests() {
    let c = client();
    let messages = system_and_user("sys", s("вопрос"));
    assert_eq!((messages[0].role.as_str(), text_of(&messages[0])), ("system", "sys"));
    assert_eq!((messages[1].role.as_str(), text_of(&messages[1])), ("user", "вопрос"));
    assert_eq!(Message::assistant(s("x")).role, "assistant");
    let r = c.completion_request("m", messages, 100);
    assert_eq!((r.model.as_str(), r.messages.len(), r.max_tokens), ("m", 2, 100));
    assert!(r.stream.is_none() && r.reasoning.is_none());
    let r = c.chat_completion_stream("m", vec![], 5, true);
    assert_eq!(r.stream, Some(true));
    assert!(matches!(r.reasoning, Some(o) if o.exclude));
    assert!(c.chat_completion_stream("m", vec![], 5, false).reasoning.is_none());
}

#[test]
fn completion_is_taken_from_the_first_choice() {
    let usage = Usage { prompt_tokens: 1, completion_tokens: 2, total_tokens: 3 };
    let a = replied(200, "{..}", response(Some(" ответ "), Some("  "), Some(usage)));
    match client().chat_completion("m", 0, &a) {
        Verdict::Done(c) => {
            assert_eq!((c.content.as_str(), c.model.as_str()), (" ответ ", "m"));
            assert_eq!(c.reasoning, None);
            assert_eq!(c.latency_ms, 7);
            assert_eq!((c.prompt_tokens, c.completion_tokens, c.total_tokens), (1, 2, 3));
        }
        _ => panic!("not done"),
    }
    let a = replied(200, "{..}", response(None, Some("мысль"), None));
    match client().chat_completion("m", 0, &a) {
        Verdict::Done(c) => {
            assert_eq!((c.content.as_str(), c.total_tokens), ("", 0));
            assert_eq!(c.reasoning.as_deref(), Some("мысль"));
        }
        _ => panic!("not done"),
    }
}

#[test]
fn useless_answers_are_tried_again() {
    let c = client();
    for a in [
        replied(200, "not json", None),
        replied(200, "{..}", response(Some(" "), None, None)),
        replied(429, "slow", None),
        replied(503, "down", None),
        Attempt::NotSent { transient: true, message: s("timeout") },
    ] {
        assert!(matches!(c.chat_completion("m", 0, &a), Verdict::Retry { delay_ms: 500 }));
        assert!(matches!(c.chat_completion("m", 1, &a), Verdict::Retry { delay_ms: 1000 }));
        assert!(matches!(c.chat_completion("m", 2, &a), Verdict::Fail { counted: true, .. }));
    }
}

#[test]
fn completion_errors() {
    let c = client();
    assert_eq!(
        failure(c.chat_completion("m", 2, &replied(503, "a\nb", None))),
        (s("openrouter error: status 503 X after 3 attempt(s): a b"), true)
    );
    assert_eq!(
        failure(c.chat_completion("m", 0, &replied(401, "no", None))),
        (s("openrouter error: status 401 X after 1 attempt(s): no"), true)
    );
    assert_eq!(
        failure(c.chat_completion("m", 0, &replied(200, " \n", None))),
        (s("openrouter error: Empty response from provider"), false)
    );
    let a = Attempt::NotSent { transient: false, message: s("bad") };
    assert_eq!(
        failure(c.chat_completion("m", 0, &a)),
        (s("openrouter error: send after 1 attempt(s): bad"), true)
    );
}

#[test]
fn stream_faults_say_what_happened() {
    assert_eq!(
        stream_error(&StreamFault::NotSent(s("x"))).message(),
        "openrouter error: send stream request: x"
    );
    let f = StreamFault::Refused { status_text: s("500 Oops"), body: s("b") };
    assert_eq!(stream_error(&f).message(), "openrouter error: stream error 500 Oops: b");
    assert_eq!(
        stream_error(&StreamFault::Broken(s("x"))).message(),
        "openrouter error: stream read error: x"
    );
}

#[test]
fn embedding_attempts() {
    let e = embedder();
    assert!(e.request(&vec![]).is_none());
    let r = e.request(&vec![s("a"), s("b")]).unwrap();
    assert_eq!((r.model.as_str(), r.input), ("bge-m3", vec![s("a"), s("b")]));
    let done: EmbedVerdict<u8> = e.embed(0, EmbedAttempt::Embedded(vec![1, 2]));
    assert!(matches!(done, EmbedVerdict::Done(v) if v == vec![1, 2]));
    let refused = |status| EmbedAttempt::<u8>::Refused { status, status_text: s("S"), body: s("b") };
    assert!(matches!(e.embed(1, refused(500)), EmbedVerdict::Retry { delay_ms: 1000 }));
    assert!(matches!(e.embed(2, refused(500)), EmbedVerdict::Fail(err)
        if err.message() == "openrouter error: embedding status S after 3 attempt(s): b"));
    assert!(matches!(e.embed(0, refused(400)), EmbedVerdict::Fail(_)));
    let bad: EmbedVerdict<u8> = e.embed(0, EmbedAttempt::Unreadable(s("eof")));
    assert!(matches!(bad, EmbedVerdict::Fail(err)
        if err.message() == "openrouter error: parse embedding body: eof"));
    let lost: EmbedVerdict<u8> =
        e.embed(2, EmbedAttempt::NotSent { transient: true, message: s("t") });
    assert!(matches!(lost, EmbedVerdict::Fail(err)
        if err.message() == "openrouter error: embedding send after 3 attempt(s): t"));
    assert!(matches!(EmbeddingClient::embed_single(vec![3, 4]), Ok(3)));
    let none: Vec<u8> = vec![];
    assert!(matches!(EmbeddingClient::embed_single(none), Err(err)
        if err.message() == "openrouter error: embedding returned empty data array"));
}

#[test]
fn stream_is_read_line_by_line() {
    let mut b = EventBuffer::new();
    let none: Vec<String> = vec![];
    assert_eq!(b.feed(b"data: {\"a\""), none);
    assert_eq!(b.feed(b":1}\r\n\n: ping\ndata: x"), vec!["{\"a\":1}"]);
    assert_eq!(b.feed(b"y\ndata: [DONE]\ndata: z\n"), vec!["xy"]);
    assert_eq!(b.feed(b""), vec!["z"]);
    assert!(b.bytes.is_empty());
}

#[test]
fn stream_does_not_care_where_it_is_cut() {
    let all = "data: один\n\ndata: два\ndata: три".as_bytes();
    let mut whole = EventBuffer::new();
    let expected = whole.feed(all);
    assert_eq!(expected, vec!["один", "два"]);
    for cut in 0..=all.len() {
        let mut b = EventBuffer::new();
        let mut got = b.feed(&all[..cut]);
        got.extend(b.feed(&all[cut..]));
        assert_eq!(got, expected);
        assert_eq!(b.bytes, whole.bytes);
    }
}

#[test]
fn lines_say_what_they_say() {
    assert!(matches!(read_line(" data: x \r\n"), Line::Data(d) if d == "x"));
    assert!(matches!(read_line("data: [DONE]\n"), Line::Over));
    assert!(matches!(read_line("data: "), Line::Nothing));
    assert!(matches!(read_line(": ping"), Line::Nothing));
    assert!(matches!(read_line("\n"), Line::Nothing));
}

#[test]
fn broken_bytes_do_not_break_the_stream() {
    let mut b = EventBuffer::new();
    assert_eq!(b.feed(b"data: a\xffb\n"), vec!["a\u{fffd}b"]);
}

#[test]
fn media_go_to_the_model_in_base64() {
    match image_message(b"foobar", "image/png").content {
        MessageContent::Multipart(v) => {
            assert_eq!(v.len(), 2);
            assert!(matches!(&v[0], ContentBlock::Text { text } if text == IMAGE_PROMPT));
            assert!(matches!(&v[1], ContentBlock::ImageUrl { image_url }
                if image_url.url == "data:image/png;base64,Zm9vYmFy"));
        }
        _ => panic!("no blocks"),
    }
    match voice_message(&[0xff, 0xfe, 0xfd, 0, 1]).content {
        MessageContent::Multipart(v) => {
            assert!(matches!(&v[0], ContentBlock::Text { text } if text == VOICE_PROMPT));
            assert!(matches!(&v[1], ContentBlock::InputAudio { input_audio }
                if input_audio.data == "//79AAE=" && input_audio.format == "ogg"));
        }
        _ => panic!("no blocks"),
    }
}

#[test]
fn models_are_asked_in_turn() {
    let models = models_to_try("a", &vec![s("b")]);
    assert_eq!(models, vec!["a", "b"]);
    assert!(matches!(describe_image(&models, 0, None), DescribeStep::Ask(m) if m == "a"));
    let failed = || Some(Answer::Failed(Error::OpenRouter(s("x"))));
    assert!(matches!(describe_image(&models, 1, failed()), DescribeStep::Ask(m) if m == "b"));
    assert!(matches!(describe_image(&models, 2, failed()), DescribeStep::Fail(e)
        if e.message() == "openrouter error: x"));
    let blank = || Some(Answer::Text(s(" \n")));
    assert!(matches!(describe_image(&models, 1, blank()), DescribeStep::Ask(_)));
    assert!(matches!(describe_image(&models, 2, blank()), DescribeStep::Fail(e)
        if e.message() == "openrouter error: empty content"));
    let good = Some(Answer::Text(s(" кот ")));
    assert!(matches!(describe_image(&models, 1, good), DescribeStep::Done(d) if d == "кот"));
    assert!(matches!(describe_image(&vec![], 0, None), DescribeStep::Fail(e)
        if e.message() == "openrouter error: no vision models configured"));
}

#[test]
fn descriptions_are_cut() {
    assert_eq!(trim_desc(&"ж".repeat(801)), format!("{}…", "ж".repeat(800)));
    assert_eq!(trim_desc(" ж "), "ж");
    assert!(matches!(transcribe_voice(Answer::Text(s(" да "))), Ok(t) if t == "да"));
    assert!(matches!(transcribe_voice(Answer::Text(s(" "))), Err(e)
        if e.message() == "openrouter error: voice transcription empty"));
    assert!(matches!(transcribe_voice(Answer::Failed(Error::Io(s("x")))), Err(Error::Io(_))));
}

#[test]
fn system_prompt_shows_the_examples() {
    assert_eq!(full_system_prompt(&vec![]), SYSTEM_PROMPT_BASE);
    let shot = |c: &str, r: &str| FewShot { context: s(c), reply: s(r) };
    assert_eq!(
        full_system_prompt(&vec![shot("c1", "r1"), shot("c2", "r2")]),
        format!(
            "{SYSTEM_PROMPT_BASE}\n\nПРИМЕРЫ ТВОИХ ОТВЕТОВ:\n\nПример 1:\n[Контекст]:\nc1\n[Твой ответ]:\nr1\n\nПример 2:\n[Контекст]:\nc2\n[Твой ответ]:\nr2\n\nИспользуй эти примеры как ориентир для своего стиля общения.\n"
        )
    );
}

#[test]
fn layers_are_put_together() {
    let w = |name: Option<&str>, desc: Option<&str>| WorkingMessage {
        user_id: 1,
        username: name.map(s),
        text: s("да"),
        media_desc: desc.map(s),
        ts: 1,
        tg_message_id: None,
    };
    assert_eq!(format_window_msg(&w(None, Some("кот")), 7), "@unknown: да [медиа: кот]");
    assert_eq!(format_window_msg(&w(Some("bot"), Some("кот")), 1), "[я]: да [медиа: кот]");
    let bare = Layers {
        dna: s("днк"),
        events: vec![],
        summaries: vec![],
        people: vec![],
        shots: vec![],
        window: vec![],
        bot_id: 7,
    };
    let v = assemble(&bare);
    assert_eq!(v.len(), 2);
    assert_eq!(text_of(&v[0]), CORE_PERSONA);
    assert_eq!(text_of(&v[1]), "[ДНК этого чата]:\nднк");
    let mut own = w(Some("pidrila"), None);
    own.user_id = 7;
    let full = Layers {
        dna: s("днк"),
        events: vec![s("e")],
        summaries: vec![s("c")],
        people: vec![(s("ann"), vec![s("f")])],
        shots: vec![FewShot { context: s("q"), reply: s("a") }],
        window: vec![w(Some("bob"), None), own],
        bot_id: 7,
    };
    let v = assemble(&full);
    let texts: Vec<&str> = v.iter().skip(2).map(text_of).collect();
    assert_eq!(
        texts,
        vec![
            "[Релевантные моменты из прошлого]:\n- e\n",
            "[Контекст из истории чата]:\n- c\n",
            "[Факты об участниках]:\n@ann:\n  - f\n",
            "[Примеры твоего стиля общения]:\nКонтекст: q\nТвой ответ: a\n\n",
            "@bob: да",
            "[я]: да",
        ]
    );
    assert_eq!(v[6].role, "user");
}

#[test]
fn a_failing_call_uses_all_its_retries() {
    let c = OpenRouterClient::new(s("https://x"), s("k"), 60, 5);
    let mut pauses: Vec<u64> = Vec::new();
    let mut attempt: u32 = 0;
    loop {
        match c.chat_completion("m", attempt, &replied(503, "down", None)) {
            Verdict::Retry { delay_ms } => pauses.push(delay_ms),
            v => {
                assert_eq!(failure(v), (s("openrouter error: status 503 X after 6 attempt(s): down"), true));
                break;
            }
        }
        attempt += 1;
    }
    assert_eq!(attempt, 5);
    assert_eq!(pauses, vec![500, 1000, 2000, 4000, 8000]);
}

#[test]
fn a_failing_embedding_uses_all_its_retries() {
    let e = embedder();
    let mut pauses: Vec<u64> = Vec::new();
    let mut attempt: u32 = 0;
    loop {
        let timeout = EmbedAttempt::<u8>::NotSent { transient: true, message: s("timeout") };
        match e.embed(attempt, timeout) {
            EmbedVerdict::Retry { delay_ms } => pauses.push(delay_ms),
            v => {
                assert!(matches!(v, EmbedVerdict::Fail(Error::OpenRouter(t))
                    if t == "embedding send after 3 attempt(s): timeout"));
                break;
            }
        }
        attempt += 1;
    }
    assert_eq!(pauses, vec![500, 1000]);
}
