//! The chat-completion client: messages, requests, retries and the event stream.
use reqwest::header::HeaderValue;
use vstd::prelude::*;

use crate::error::{joined, result_view, Error, ErrorView};
use crate::text::{
    decimal, drop_trailing, ellipsize, ellipsized, is_blank, replace_char, replace_seq, text_or,
    trim_end_matches, trim_seq, u64_to_string,
};

verus! {

/// Where requests say that they come from.
pub const HTTP_REFERER: &'static str = "https://github.com/undergodst/ragtg-bot";
/// What requests call the program.
pub const X_TITLE: &'static str = "ragtg-bot";

/// A chat message.
pub struct Message {
    pub role: String,
    pub content: MessageContent,
}

/// What a message holds: plain text, or typed blocks.
pub enum MessageContent {
    Text(String),
    Multipart(Vec<ContentBlock>),
}

/// One block of a multimodal message.
pub enum ContentBlock {
    Text { text: String },
    ImageUrl { image_url: ImageUrl },
    InputAudio { input_audio: InputAudio },
}

/// A picture, by `https` URL or data URL.
pub struct ImageUrl {
    pub url: String,
}

/// A recording: raw base64 and a format hint such as `ogg`.
pub struct InputAudio {
    pub data: String,
    pub format: String,
}

/// A message as a mathematical value.
#[verifier::ext_equal]
pub struct MessageView {
    pub role: Seq<char>,
    pub content: MessageContentView,
}

/// The content of a message as a mathematical value.
#[verifier::ext_equal]
pub enum MessageContentView {
    Text(Seq<char>),
    Multipart(Seq<ContentBlockView>),
}

/// A block as a mathematical value.
#[verifier::ext_equal]
pub enum ContentBlockView {
    Text { text: Seq<char> },
    ImageUrl { url: Seq<char> },
    InputAudio { data: Seq<char>, format: Seq<char> },
}

impl DeepView for ContentBlock {
    type V = ContentBlockView;

    open spec fn deep_view(&self) -> ContentBlockView {
        match self {
            ContentBlock::Text { text } => ContentBlockView::Text { text: text@ },
            ContentBlock::ImageUrl { image_url } => ContentBlockView::ImageUrl {
                url: image_url.url@,
            },
            ContentBlock::InputAudio { input_audio } => ContentBlockView::InputAudio {
                data: input_audio.data@,
                format: input_audio.format@,
            },
        }
    }
}

impl DeepView for MessageContent {
    type V = MessageContentView;

    open spec fn deep_view(&self) -> MessageContentView {
        match self {
            MessageContent::Text(t) => MessageContentView::Text(t@),
            MessageContent::Multipart(b) => MessageContentView::Multipart(b.deep_view()),
        }
    }
}

impl DeepView for Message {
    type V = MessageView;

    open spec fn deep_view(&self) -> MessageView {
        MessageView { role: self.role@, content: self.content.deep_view() }
    }
}

/// A message of plain text from `role`.
pub open spec fn text_message(role: Seq<char>, text: Seq<char>) -> MessageView {
    MessageView { role, content: MessageContentView::Text(text) }
}

impl Message {
    /// A system message.
    pub fn system(content: String) -> (r: Message)
        ensures
            r.deep_view() == text_message("system"@, content@),
    {
        Message { role: "system".to_owned(), content: MessageContent::Text(content) }
    }

    /// A user message.
    pub fn user(content: String) -> (r: Message)
        ensures
            r.deep_view() == text_message("user"@, content@),
    {
        Message { role: "user".to_owned(), content: MessageContent::Text(content) }
    }

    /// An assistant message.
    pub fn assistant(content: String) -> (r: Message)
        ensures
            r.deep_view() == text_message("assistant"@, content@),
    {
        Message { role: "assistant".to_owned(), content: MessageContent::Text(content) }
    }

    /// A user message of several blocks, in the order given.
    pub fn user_multipart(blocks: Vec<ContentBlock>) -> (r: Message)
        ensures
            r.deep_view() == (MessageView {
                role: "user"@,
                content: MessageContentView::Multipart(blocks.deep_view()),
            }),
    {
        Message { role: "user".to_owned(), content: MessageContent::Multipart(blocks) }
    }
}

/// Appends a message.
pub fn push_message(v: &mut Vec<Message>, m: Message)
    ensures
        final(v).deep_view() == old(v).deep_view().push(m.deep_view()),
{
    v.push(m);
    assert(v.deep_view() =~= old(v).deep_view().push(m.deep_view()));
}

/// A prompt of a system message and a user message.
pub open spec fn two_messages(system: Seq<char>, user: Seq<char>) -> Seq<MessageView> {
    seq![text_message("system"@, system), text_message("user"@, user)]
}

/// A prompt of a system message and a user message.
pub fn system_and_user(system: &str, user: String) -> (r: Vec<Message>)
    ensures
        r.deep_view() == two_messages(system@, user@),
{
    let mut v: Vec<Message> = Vec::new();
    v.push(Message::system(system.to_owned()));
    v.push(Message::user(user));
    assert(v.deep_view() =~= two_messages(system@, user@));
    v
}

/// The body of a request.
pub struct ChatRequest {
    pub model: String,
    pub messages: Vec<Message>,
    pub max_tokens: u32,
    /// Left out of the body where there is none.
    pub stream: Option<bool>,
    /// Left out of the body where there is none.
    pub reasoning: Option<ReasoningOptions>,
}

/// How the model's reasoning is handled: excluded, it stays out of the answer.
#[derive(Clone, Copy, Debug, PartialEq, Eq, Structural)]
pub struct ReasoningOptions {
    pub exclude: bool,
}

impl ReasoningOptions {
    /// The model reasons, and the answer does not show it.
    pub fn hidden() -> (r: ReasoningOptions)
        ensures
            r.exclude,
    {
        ReasoningOptions { exclude: true }
    }
}

/// A parsed answer.
pub struct ChatResponse {
    pub choices: Vec<Choice>,
    pub usage: Option<Usage>,
}

/// One choice of an answer.
pub struct Choice {
    pub content: Option<String>,
    pub reasoning: Option<String>,
}

/// One chunk of a streamed completion.
pub struct StreamChunk {
    pub choices: Vec<StreamChoice>,
}

/// One choice of a chunk.
pub struct StreamChoice {
    pub delta: StreamDelta,
}

/// What a chunk adds.
pub struct StreamDelta {
    pub content: Option<String>,
    pub reasoning: Option<String>,
}

/// Token counts.
#[derive(Clone, Copy, Debug, PartialEq, Eq, Structural)]
pub struct Usage {
    pub prompt_tokens: u32,
    pub completion_tokens: u32,
    pub total_tokens: u32,
}

/// A successful completion with its telemetry.
pub struct ChatCompletion {
    pub content: String,
    pub reasoning: Option<String>,
    pub model: String,
    pub latency_ms: u128,
    pub prompt_tokens: u32,
    pub completion_tokens: u32,
    pub total_tokens: u32,
}

/// An answer as a mathematical value.
#[verifier::ext_equal]
pub struct ChatResponseView {
    pub choices: Seq<ChoiceView>,
    pub usage: Option<Usage>,
}

/// A choice as a mathematical value.
#[verifier::ext_equal]
pub struct ChoiceView {
    pub content: Option<Seq<char>>,
    pub reasoning: Option<Seq<char>>,
}

/// A completion as a mathematical value.
#[verifier::ext_equal]
pub struct ChatCompletionView {
    pub content: Seq<char>,
    pub reasoning: Option<Seq<char>>,
    pub model: Seq<char>,
    pub latency_ms: u128,
    pub prompt_tokens: u32,
    pub completion_tokens: u32,
    pub total_tokens: u32,
}

impl DeepView for Choice {
    type V = ChoiceView;

    open spec fn deep_view(&self) -> ChoiceView {
        ChoiceView { content: self.content.deep_view(), reasoning: self.reasoning.deep_view() }
    }
}

impl DeepView for ChatResponse {
    type V = ChatResponseView;

    open spec fn deep_view(&self) -> ChatResponseView {
        ChatResponseView { choices: self.choices.deep_view(), usage: self.usage }
    }
}

impl DeepView for ChatCompletion {
    type V = ChatCompletionView;

    open spec fn deep_view(&self) -> ChatCompletionView {
        ChatCompletionView {
            content: self.content@,
            reasoning: self.reasoning.deep_view(),
            model: self.model@,
            latency_ms: self.latency_ms,
            prompt_tokens: self.prompt_tokens,
            completion_tokens: self.completion_tokens,
            total_tokens: self.total_tokens,
        }
    }
}

/// How one attempt to reach the service went.
pub enum Attempt {
    /// An answer came.
    Replied {
        /// The status, as a number and as a text.
        status: u16,
        status_text: String,
        body: String,
        /// The trimmed body, where it could be read as an answer.
        parsed: Option<ChatResponse>,
        /// Milliseconds since the first attempt began.
        latency_ms: u128,
    },
    /// The request did not get through; `transient` where it timed out or could not
    /// connect.
    NotSent { transient: bool, message: String },
}

/// An attempt as a mathematical value.
#[verifier::ext_equal]
pub enum AttemptView {
    Replied {
        status: u16,
        status_text: Seq<char>,
        body: Seq<char>,
        parsed: Option<ChatResponseView>,
        latency_ms: u128,
    },
    NotSent { transient: bool, message: Seq<char> },
}

impl DeepView for Attempt {
    type V = AttemptView;

    open spec fn deep_view(&self) -> AttemptView {
        match self {
            Attempt::Replied { status, status_text, body, parsed, latency_ms } =>
                AttemptView::Replied {
                status: *status,
                status_text: status_text@,
                body: body@,
                parsed: parsed.deep_view(),
                latency_ms: *latency_ms,
            },
            Attempt::NotSent { transient, message } => AttemptView::NotSent {
                transient: *transient,
                message: message@,
            },
        }
    }
}

/// What an attempt leads to.
pub enum Verdict {
    /// The call succeeded.
    Done(ChatCompletion),
    /// Try again after this pause.
    Retry { delay_ms: u64 },
    /// The call failed; `counted` where it counts among the failed calls.
    Fail { error: Error, counted: bool },
}

/// A verdict as a mathematical value.
#[verifier::ext_equal]
pub enum VerdictView {
    Done(ChatCompletionView),
    Retry { delay_ms: u64 },
    Fail { error: ErrorView, counted: bool },
}

impl DeepView for Verdict {
    type V = VerdictView;

    open spec fn deep_view(&self) -> VerdictView {
        match self {
            Verdict::Done(c) => VerdictView::Done(c.deep_view()),
            Verdict::Retry { delay_ms } => VerdictView::Retry { delay_ms: *delay_ms },
            Verdict::Fail { error, counted } => VerdictView::Fail {
                error: error.deep_view(),
                counted: *counted,
            },
        }
    }
}

/// Half a second, doubled with each attempt, up to eight seconds.
pub open spec fn backoff(attempt: u32) -> u64 {
    if attempt == 0 {
        500
    } else if attempt == 1 {
        1000
    } else if attempt == 2 {
        2000
    } else if attempt == 3 {
        4000
    } else {
        8000
    }
}

/// The pause after an attempt that failed.
pub fn backoff_ms(attempt: u32) -> (r: u64)
    ensures
        r == backoff(attempt),
{
    if attempt >= 4 {
        8000
    } else if attempt == 3 {
        4000
    } else if attempt == 2 {
        2000
    } else if attempt == 1 {
        1000
    } else {
        500
    }
}

/// The pauses double from half a second on and stay at eight seconds.
pub proof fn law_backoff_doubles(attempt: u32)
    requires
        attempt < u32::MAX,
    ensures
        backoff(0) == 500,
        backoff((attempt + 1) as u32) == (if 2 * backoff(attempt) < 8000 {
            2 * backoff(attempt)
        } else {
            8000
        }),
{
}

/// `s` on one line, cut to `n` characters.
pub open spec fn shortened(s: Seq<char>, n: int) -> Seq<char> {
    ellipsized(replace_seq(replace_seq(s, '\n', " "@), '\r', ""@), n)
}

/// `s` on one line, cut to `n` characters.
pub fn truncate(s: &str, n: usize) -> (r: String)
    ensures
        r@ == shortened(s@, n as int),
{
    let a = replace_char(s, '\n', " ");
    let b = replace_char(a.as_str(), '\r', "");
    ellipsize(b.as_str(), n)
}

/// A status that tells of success.
pub open spec fn is_success(status: u16) -> bool {
    200 <= status < 300
}

/// A status after which another attempt may help.
pub open spec fn is_retryable(status: u16) -> bool {
    status == 429 || 500 <= status < 600
}

/// Whether a status tells of success.
pub fn success_status(status: u16) -> (r: bool)
    ensures
        r == is_success(status),
{
    200 <= status && status < 300
}

/// Whether another attempt may help after this status.
pub fn retryable_status(status: u16) -> (r: bool)
    ensures
        r == is_retryable(status),
{
    status == 429 || (500 <= status && status < 600)
}

/// A text that is not blank, or none.
pub open spec fn not_blank(o: Option<Seq<char>>) -> Option<Seq<char>> {
    match o {
        Some(t) if trim_seq(t).len() > 0 => Some(t),
        _ => None,
    }
}

fn filled(o: &Option<String>) -> (r: Option<String>)
    ensures
        r.deep_view() == not_blank(o.deep_view()),
{
    match o {
        Some(t) => if is_blank(t.as_str()) {
            None
        } else {
            Some(t.clone())
        },
        None => None,
    }
}

/// The answer's text and reasoning: those of its first choice, where one of them is
/// not blank.
pub open spec fn answer_of(p: Option<ChatResponseView>) -> Option<
    (Seq<char>, Option<Seq<char>>),
> {
    match p {
        Some(r) if r.choices.len() > 0 => {
            let content = not_blank(r.choices[0].content);
            let reasoning = not_blank(r.choices[0].reasoning);
            if content is Some || reasoning is Some {
                Some((text_or(content, Seq::empty()), reasoning))
            } else {
                None
            }
        },
        _ => None,
    }
}

/// The token counts of an answer; zeros where it gives none.
pub open spec fn usage_of(p: Option<ChatResponseView>) -> Usage {
    match p {
        Some(r) if r.usage is Some => r.usage->0,
        _ => Usage { prompt_tokens: 0, completion_tokens: 0, total_tokens: 0 },
    }
}

fn answer(p: &Option<ChatResponse>) -> (r: Option<(String, Option<String>)>)
    ensures
        r.deep_view() == answer_of(p.deep_view()),
{
    if let Some(resp) = p {
        if resp.choices.len() > 0 {
            assert(resp.choices.deep_view()[0] == resp.choices@[0].deep_view());
            let content = filled(&resp.choices[0].content);
            let reasoning = filled(&resp.choices[0].reasoning);
            if content.is_none() && reasoning.is_none() {
                return None;
            }
            return match content {
                Some(c) => Some((c, reasoning)),
                None => {
                    let none = String::new();
                    assert(none@ =~= Seq::<char>::empty());
                    Some((none, reasoning))
                },
            };
        }
    }
    None
}

fn usage(p: &Option<ChatResponse>) -> (r: Usage)
    ensures
        r == usage_of(p.deep_view()),
{
    if let Some(resp) = p {
        if let Some(u) = resp.usage {
            return u;
        }
    }
    Usage { prompt_tokens: 0, completion_tokens: 0, total_tokens: 0 }
}

/// The error for an answer that is of no use.
pub open spec fn refused(
    prefix: Seq<char>,
    status_text: Seq<char>,
    attempt: u32,
    body: Seq<char>,
) -> ErrorView {
    ErrorView::OpenRouter(
        prefix + status_text + " after "@ + decimal(attempt + 1) + " attempt(s): "@ + body,
    )
}

/// The error for a request that did not get through.
pub open spec fn unsent(prefix: Seq<char>, attempt: u32, message: Seq<char>) -> ErrorView {
    ErrorView::OpenRouter(prefix + decimal(attempt + 1) + " attempt(s): "@ + message)
}

pub(crate) fn refused_error(prefix: &str, status_text: &str, attempt: u32, body: &str) -> (r: Error)
    ensures
        r.deep_view() == refused(prefix@, status_text@, attempt, body@),
{
    let mut s = prefix.to_owned();
    s.append(status_text);
    s.append(" after ");
    s.append(u64_to_string(attempt as u64 + 1).as_str());
    s.append(" attempt(s): ");
    s.append(body);
    Error::OpenRouter(s)
}

pub(crate) fn unsent_error(prefix: &str, attempt: u32, message: &str) -> (r: Error)
    ensures
        r.deep_view() == unsent(prefix@, attempt, message@),
{
    let mut s = prefix.to_owned();
    s.append(u64_to_string(attempt as u64 + 1).as_str());
    s.append(" attempt(s): ");
    s.append(message);
    Error::OpenRouter(s)
}

/// What attempt number `attempt`, counted from 0, leads to.
pub open spec fn judged(
    max_retries: u32,
    model: Seq<char>,
    attempt: u32,
    outcome: AttemptView,
) -> VerdictView {
    match outcome {
        AttemptView::NotSent { transient, message } => if transient && attempt < max_retries {
            VerdictView::Retry { delay_ms: backoff(attempt) }
        } else {
            VerdictView::Fail { error: unsent("send after "@, attempt, message), counted: true }
        },
        AttemptView::Replied { status, status_text, body, parsed, latency_ms } => if is_success(
            status,
        ) && trim_seq(body).len() == 0 {
            VerdictView::Fail {
                error: ErrorView::OpenRouter("Empty response from provider"@),
                counted: false,
            }
        } else if is_success(status) && answer_of(parsed) is Some {
            let u = usage_of(parsed);
            VerdictView::Done(
                ChatCompletionView {
                    content: (answer_of(parsed)->0).0,
                    reasoning: (answer_of(parsed)->0).1,
                    model,
                    latency_ms,
                    prompt_tokens: u.prompt_tokens,
                    completion_tokens: u.completion_tokens,
                    total_tokens: u.total_tokens,
                },
            )
        } else if (is_success(status) || is_retryable(status)) && attempt < max_retries {
            VerdictView::Retry { delay_ms: backoff(attempt) }
        } else {
            VerdictView::Fail {
                error: refused("status "@, status_text, attempt, shortened(body, 500)),
                counted: true,
            }
        },
    }
}

/// A text that a header can hold: no control character but the tab.
pub open spec fn header_safe(s: Seq<char>) -> bool {
    forall|i: int|
        0 <= i < s.len() ==> #[trigger] s[i] == '\t' || (s[i] as u32 >= 0x20 && s[i] as u32
            != 0x7f)
}

/// `HeaderValue::from_str` of the HTTP client: looks at the bytes of the text and
/// refuses those below 32, but for the tab, and the byte 127. Bytes of characters
/// beyond ASCII are all above 127, so this is a test of the characters. What it
/// takes it takes as it stands; what its error says is a fixed sentence.
#[verifier::external_body]
fn header_value(s: &str) -> (r: Result<String, String>)
    ensures
        r is Ok <==> header_safe(s@),
        r matches Ok(v) ==> v@ == s@,
        r matches Err(e) ==> e@ == "failed to parse header value"@,
{
    match HeaderValue::from_str(s) {
        Ok(_) => Ok(s.to_owned()),
        Err(e) => Err(e.to_string()),
    }
}

/// A header: its name and its value.
pub type Header = (String, String);

/// The headers of every request with this key.
pub open spec fn auth_headers(api_key: Seq<char>) -> Seq<(Seq<char>, Seq<char>)> {
    seq![
        ("authorization"@, "Bearer "@ + api_key),
        ("content-type"@, "application/json"@),
    ]
}

/// The error for a key that no header can hold.
pub open spec fn bad_key() -> ErrorView {
    ErrorView::OpenRouter("auth header: "@ + "failed to parse header value"@)
}

/// Appends a header.
fn push_header(v: &mut Vec<Header>, name: &str, value: &str)
    ensures
        final(v).deep_view() == old(v).deep_view().push((name@, value@)),
{
    v.push((name.to_owned(), value.to_owned()));
    assert(v.deep_view() =~= old(v).deep_view().push((name@, value@)));
}

/// The headers that name the key and the kind of body, or an error where no header
/// can hold the key.
pub(crate) fn key_headers(api_key: &str) -> (r: Result<Vec<Header>, Error>)
    ensures
        result_view(r) == (if header_safe("Bearer "@ + api_key@) {
            Ok::<Seq<(Seq<char>, Seq<char>)>, ErrorView>(auth_headers(api_key@))
        } else {
            Err(bad_key())
        }),
{
    let auth = joined("Bearer ", api_key);
    match header_value(auth.as_str()) {
        Ok(value) => {
            let mut v: Vec<Header> = Vec::new();
            push_header(&mut v, "authorization", value.as_str());
            push_header(&mut v, "content-type", "application/json");
            assert(v.deep_view() =~= auth_headers(api_key@));
            Ok(v)
        },
        Err(e) => Err(Error::OpenRouter(joined("auth header: ", e.as_str()))),
    }
}

/// The client's settings.
pub struct OpenRouterClient {
    pub base_url: String,
    pub api_key: String,
    pub timeout_sec: u64,
    pub max_retries: u32,
}

impl OpenRouterClient {
    /// A client for the service at `base_url`.
    pub fn new(base_url: String, api_key: String, timeout_sec: u64, max_retries: u32) -> (r:
        OpenRouterClient)
        ensures
            r == (OpenRouterClient { base_url, api_key, timeout_sec, max_retries }),
    {
        OpenRouterClient { base_url, api_key, timeout_sec, max_retries }
    }

    /// Where completions are asked for.
    pub fn url(&self) -> (r: String)
        ensures
            r@ == drop_trailing(self.base_url@, '/') + "/chat/completions"@,
    {
        let mut s = trim_end_matches(self.base_url.as_str(), '/');
        s.append("/chat/completions");
        s
    }

    /// The headers of every request, or an error where no header can hold the key.
    pub fn headers(&self) -> (r: Result<Vec<Header>, Error>)
        ensures
            result_view(r) == (if header_safe("Bearer "@ + self.api_key@) {
                Ok::<Seq<(Seq<char>, Seq<char>)>, ErrorView>(
                    auth_headers(self.api_key@).push(("HTTP-Referer"@, HTTP_REFERER@)).push(
                        ("X-Title"@, X_TITLE@),
                    ),
                )
            } else {
                Err(bad_key())
            }),
    {
        let mut v = match key_headers(self.api_key.as_str()) {
            Ok(v) => v,
            Err(e) => {
                return Err(e);
            },
        };
        push_header(&mut v, "HTTP-Referer", HTTP_REFERER);
        push_header(&mut v, "X-Title", X_TITLE);
        Ok(v)
    }

    /// The body of a request for a whole completion.
    pub fn completion_request(
        &self,
        model: &str,
        messages: Vec<Message>,
        max_tokens: u32,
    ) -> (r: ChatRequest)
        ensures
            r.model@ == model@,
            r.messages == messages,
            r.max_tokens == max_tokens,
            r.stream is None,
            r.reasoning is None,
    {
        ChatRequest { model: model.to_owned(), messages, max_tokens, stream: None, reasoning: None }
    }

    /// The body of a request for a stream; with `disable_thinking` the model's
    /// reasoning stays out of it.
    pub fn chat_completion_stream(
        &self,
        model: &str,
        messages: Vec<Message>,
        max_tokens: u32,
        disable_thinking: bool,
    ) -> (r: ChatRequest)
        ensures
            r.model@ == model@,
            r.messages == messages,
            r.max_tokens == max_tokens,
            r.stream == Some(true),
            r.reasoning == (if disable_thinking {
                Some(ReasoningOptions { exclude: true })
            } else {
                None
            }),
    {
        ChatRequest {
            model: model.to_owned(),
            messages,
            max_tokens,
            stream: Some(true),
            reasoning: if disable_thinking {
                Some(ReasoningOptions::hidden())
            } else {
                None
            },
        }
    }

    /// Judges an attempt, counted from 0, to get a whole completion. An answer counts
    /// where its first choice has text or reasoning. Otherwise a status of success,
    /// 429 or 5xx, or a timeout or a failed connection, leads to another attempt
    /// while fewer than `max_retries` have been repeated; all else is an error.
    pub fn chat_completion(&self, model: &str, attempt: u32, outcome: &Attempt) -> (r: Verdict)
        ensures
            r.deep_view() == judged(self.max_retries, model@, attempt, outcome.deep_view()),
    {
        match outcome {
            Attempt::NotSent { transient, message } => {
                if *transient && attempt < self.max_retries {
                    return Verdict::Retry { delay_ms: backoff_ms(attempt) };
                }
                Verdict::Fail {
                    error: unsent_error("send after ", attempt, message.as_str()),
                    counted: true,
                }
            },
            Attempt::Replied { status, status_text, body, parsed, latency_ms } => {
                let success = success_status(*status);
                if success && is_blank(body.as_str()) {
                    return Verdict::Fail {
                        error: Error::OpenRouter("Empty response from provider".to_owned()),
                        counted: false,
                    };
                }
                if success {
                    if let Some((content, reasoning)) = answer(parsed) {
                        let u = usage(parsed);
                        return Verdict::Done(
                            ChatCompletion {
                                content,
                                reasoning,
                                model: model.to_owned(),
                                latency_ms: *latency_ms,
                                prompt_tokens: u.prompt_tokens,
                                completion_tokens: u.completion_tokens,
                                total_tokens: u.total_tokens,
                            },
                        );
                    }
                }
                if (success || retryable_status(*status)) && attempt < self.max_retries {
                    return Verdict::Retry { delay_ms: backoff_ms(attempt) };
                }
                let shown = truncate(body.as_str(), 500);
                Verdict::Fail {
                    error: refused_error("status ", status_text.as_str(), attempt, shown.as_str()),
                    counted: true,
                }
            },
        }
    }
}

/// A call never makes more than one attempt and `max_retries` repetitions.
pub proof fn law_attempts_are_bounded(
    max_retries: u32,
    model: Seq<char>,
    attempt: u32,
    outcome: AttemptView,
)
    requires
        attempt >= max_retries,
    ensures
        !(judged(max_retries, model, attempt, outcome) is Retry),
{
}

/// The attempt came to nothing that another one could not mend.
pub open spec fn asks_again(outcome: AttemptView) -> bool {
    match outcome {
        AttemptView::NotSent { transient, .. } => transient,
        AttemptView::Replied { status, body, parsed, .. } => if is_success(status) {
            trim_seq(body).len() > 0 && answer_of(parsed) is None
        } else {
            is_retryable(status)
        },
    }
}

/// A call from attempt `attempt` on, where attempt `k` goes like `outcomes(k)`: the
/// pauses between its requests, and what it ends in.
pub open spec fn call_from(
    max_retries: u32,
    model: Seq<char>,
    outcomes: spec_fn(u32) -> AttemptView,
    attempt: u32,
) -> (Seq<u64>, VerdictView)
    decreases max_retries - attempt,
{
    match judged(max_retries, model, attempt, outcomes(attempt)) {
        VerdictView::Retry { delay_ms } if attempt < max_retries => {
            let rest = call_from(max_retries, model, outcomes, (attempt + 1) as u32);
            (seq![delay_ms] + rest.0, rest.1)
        },
        verdict => (Seq::empty(), verdict),
    }
}

/// A call repeats its request while attempts ask for another one and `max_retries` is
/// not used up. With `n` attempts that are repeated it makes `n + 1` requests, pauses
/// `backoff(0)` to `backoff(n - 1)` between them, and ends in the judgement of the last.
pub proof fn law_call_takes_its_course(
    max_retries: u32,
    model: Seq<char>,
    outcomes: spec_fn(u32) -> AttemptView,
    n: u32,
)
    requires
        n <= max_retries,
        forall|k: u32| k < n ==> asks_again(#[trigger] outcomes(k)),
        n == max_retries || !asks_again(outcomes(n)),
    ensures
        call_from(max_retries, model, outcomes, 0) == (
            Seq::new(n as nat, |k: int| backoff(k as u32)),
            judged(max_retries, model, n, outcomes(n)),
        ),
        !(judged(max_retries, model, n, outcomes(n)) is Retry),
{
    lemma_call_from(max_retries, model, outcomes, 0, n);
}

/// Where every attempt asks for another one, a call makes exactly `max_retries + 1`
/// requests, with the pauses `backoff(0)` to `backoff(max_retries - 1)` between them, and
/// ends in an error.
pub proof fn law_failing_call_uses_all_retries(
    max_retries: u32,
    model: Seq<char>,
    outcomes: spec_fn(u32) -> AttemptView,
)
    requires
        forall|k: u32| k <= max_retries ==> asks_again(#[trigger] outcomes(k)),
    ensures
        call_from(max_retries, model, outcomes, 0).0 == Seq::new(
            max_retries as nat,
            |k: int| backoff(k as u32),
        ),
        call_from(max_retries, model, outcomes, 0).1 is Fail,
{
    law_call_takes_its_course(max_retries, model, outcomes, max_retries);
    assert(asks_again(outcomes(max_retries)));
}

proof fn lemma_call_from(
    max_retries: u32,
    model: Seq<char>,
    outcomes: spec_fn(u32) -> AttemptView,
    attempt: u32,
    n: u32,
)
    requires
        attempt <= n <= max_retries,
        forall|k: u32| k < n ==> asks_again(#[trigger] outcomes(k)),
        n == max_retries || !asks_again(outcomes(n)),
    ensures
        call_from(max_retries, model, outcomes, attempt) == (
            Seq::new((n - attempt) as nat, |k: int| backoff((attempt + k) as u32)),
            judged(max_retries, model, n, outcomes(n)),
        ),
        !(judged(max_retries, model, n, outcomes(n)) is Retry),
    decreases n - attempt,
{
    let pauses = Seq::new((n - attempt) as nat, |k: int| backoff((attempt + k) as u32));
    if attempt < n {
        assert(asks_again(outcomes(attempt)));
        lemma_call_from(max_retries, model, outcomes, (attempt + 1) as u32, n);
        let rest = Seq::new(
            (n - (attempt + 1)) as nat,
            |k: int| backoff((attempt + 1 + k) as u32),
        );
        assert(seq![backoff(attempt)] + rest =~= pauses);
        assert(call_from(max_retries, model, outcomes, (attempt + 1) as u32).0 =~= rest);
    } else {
        assert(pauses =~= Seq::empty());
    }
}

/// A completion always has a text or a reasoning that is not blank.
pub proof fn law_completion_is_not_empty(
    max_retries: u32,
    model: Seq<char>,
    attempt: u32,
    outcome: AttemptView,
)
    ensures
        judged(max_retries, model, attempt, outcome) matches VerdictView::Done(c) ==> c.model
            == model && (trim_seq(c.content).len() > 0 || (c.reasoning is Some && trim_seq(
            c.reasoning->0,
        ).len() > 0)),
{
}

/// The error for a stream that could not be opened or read: what the service
/// answered, or what went wrong on the way.
pub enum StreamFault {
    NotSent(String),
    Refused { status_text: String, body: String },
    Broken(String),
}

/// The error as a mathematical value.
pub open spec fn stream_fault(f: StreamFault) -> ErrorView {
    match f {
        StreamFault::NotSent(e) => ErrorView::OpenRouter("send stream request: "@ + e@),
        StreamFault::Refused { status_text, body } => ErrorView::OpenRouter(
            "stream error "@ + status_text@ + ": "@ + body@,
        ),
        StreamFault::Broken(e) => ErrorView::OpenRouter("stream read error: "@ + e@),
    }
}

/// The error for a stream that could not be opened or read.
pub fn stream_error(f: &StreamFault) -> (r: Error)
    ensures
        r.deep_view() == stream_fault(*f),
{
    match f {
        StreamFault::NotSent(e) => Error::OpenRouter(joined("send stream request: ", e.as_str())),
        StreamFault::Refused { status_text, body } => {
            let mut s = "stream error ".to_owned();
            s.append(status_text.as_str());
            s.append(": ");
            s.append(body.as_str());
            Error::OpenRouter(s)
        },
        StreamFault::Broken(e) => Error::OpenRouter(joined("stream read error: ", e.as_str())),
    }
}

} // verus!
