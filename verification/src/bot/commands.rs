//! The commands.
use vstd::prelude::*;

use crate::bot::chunks::{chunk_message, chunks};
use crate::bot::incoming::Incoming;
use crate::config::{BotConfig, Config, OpenRouterConfig};
use crate::error::{joined, Error};
use crate::llm::client::{system_and_user, two_messages, Message, MessageView};
use crate::memory::working::{WorkingMessage, WorkingMessageView};
use crate::text::{
    chars_of, concat_all, decimal, first_chars, first_n, i64_to_string, is_blank, join, join_seq,
    lemma_concat_add, lemma_concat_step, push_text, trim_seq, u64_to_string,
    usize_to_string,
};

verus! {

/// How long a user waits between two questions, in seconds.
pub const ASK_COOLDOWN_SEC: u64 = 60;
/// The longest piece of the window listing, in characters.
pub const WINDOW_CHUNK: usize = 4000;
/// How much of an entry the window listing shows, in characters.
pub const WINDOW_TEXT: usize = 120;
/// The answer to a question without a question.
pub const NO_QUESTION: &'static str = "ты забыл написать вопрос после команды.";
/// The answer where the messages could not be counted.
pub const NO_COUNT: &'static str = "не смог посчитать, ну и хрен с ним";

/// The greeting, up to how to call the bot.
pub const START_HEAD: &'static str = "👋 <b>Здарова! Я — твой новый ИИ-сожитель.</b>\n\
\n\
Я не просто бот формата «вопрос-ответ». Я полноценный участник чата:\n\
• 🧠 <b>Помню историю</b> — слежу за контекстом и учитываю прошлые сообщения.\n\
• 🖼️ <b>Вижу медиа</b> — кидай фото, голосовые, стикеры — разберу.\n\
• 📚 <b>Запоминаю моменты</b> — значимые цитаты и события чата сами оседают в памяти.\n\
• 🎭 <b>Имею характер</b> — могу потроллить, могу и дельно посоветовать.\n\
• 🤖 <b>Сам решаю</b>, когда встрять в разговор: на упоминание или реплай.\n\
\n\
<b>📡 Команды:</b>\n\
/help — список всех команд\n\
/info — модели и потроха\n\
/ping — жив ли я\n\
/stats — сколько сообщений в этом чате\n\
/ask &lt;вопрос&gt; — спросить умную PRO-модель (кулдаун 1 минута)\n\
/askfree &lt;вопрос&gt; — спросить мощную бесплатную модель (без лимитов)\n\
\n\
<b>🛠 Для админов:</b>\n\
/window — короткая память бота\n";
/// The end of the greeting.
pub const START_TAIL: &'static str = "\n\
\n\
Погнали наводить суету.";
/// What the bot can do and which commands it knows.
pub const HELP_TEXT: &'static str = "\
<b>Я — местный ИИ-житель этого чата.</b>\n\
Читаю сообщения, смотрю картинки и сам решаю, когда стоит встрять.\n\
\n\
<b>Базовые:</b>\n\
/start — приветствие и полная инфа\n\
/help — эта справка\n\
/info — модели и архитектура\n\
/ping — проверить, жив ли я\n\
/stats — сколько сообщений в чате\n\
\n\
<b>Вопросы LLM:</b>\n\
/ask &lt;вопрос&gt; — умная PRO-модель (кулдаун 1 минута)\n\
/askfree &lt;вопрос&gt; — мощная бесплатная модель (безлимит)\n\
\n\
<b>Память:</b> сам запоминаю значимые моменты чата (цитаты, мемы, события).\n\
\n\
<b>Для админов:</b>\n\
/window — посмотреть мою короткую память (последние сообщения)\n\
\n\
<b>Чтобы позвать меня:</b> напиши «пидрила», «бот» или «антиграв», или сделай реплай на любое моё сообщение.";
/// What the bot is, up to the main model.
pub const INFO_MAIN: &'static str = "<b>🤖 Что я умею:</b>\n\
• Слежу за контекстом и сам решаю, когда отвечать.\n\
• Понимаю картинки и голосовые.\n\
• Помню факты о пользователях и значимые моменты чата.\n\
\n\
<b>🧠 Модели (OpenRouter):</b>\n\
1. Общение в чате: <code>";
/// Between the main and the pro model.
pub const INFO_PRO: &'static str = "</code>\n\
2. /ask (PRO): <code>";
/// Between the pro and the free model.
pub const INFO_ASK_FREE: &'static str = "</code>\n\
3. /askfree (FREE): <code>";
/// Between the free and the vision model.
pub const INFO_VISION: &'static str = "</code>\n\
4. Зрение/аудио: <code>";
/// Between the vision and the decision model.
pub const INFO_DECISION: &'static str = "</code>\n\
5. Решение «отвечать или нет»: <code>";
/// Behind the decision model.
pub const INFO_END: &'static str = "</code>\n\
\n\
<b>💾 Память:</b> SQLite + Qdrant (BGE-M3 эмбеддинги, 1024 dim) + Redis-кэш.";
/// The role of the model behind the ask command.
pub const ASK_PROMPT: &'static str = "Ты — Пидрила, циничный ИИ-тролль с имиджборд. \
            Сразу отвечай по сути вопроса. Без предисловий, без «давайте подумаем», без мета-рассуждений. \
            Ответ должен быть точным, глубоким и в твоём стиле.\n\
            \n\
            ОФОРМЛЕНИЕ — ПОСЛЕДНИЙ ШАГ. Сначала готовый ответ, и только потом, если уместно, оборачиваешь \
            ключевые места в HTML: <b>жирный</b>, <i>курсив</i>, <code>код</code>, <pre>блоки кода/таблицы</pre>, \
            <blockquote>цитата</blockquote>, <tg-spoiler>спойлер</tg-spoiler>. Все теги закрывай. \
            Если разметка не нужна — не вставляй её ради разметки.";
/// The role of the model behind the free ask command.
pub const ASK_FREE_PROMPT: &'static str = "Ты — Пидрила в режиме «Максимальный анализ». Дай развёрнутый, структурированный ответ в стиле 2ch-философа: душно, но дико умно. \
            Сразу к делу — без «давайте подумаем», без анализа постановки вопроса, без вступлений типа «начнём с того что...». \
            Первое предложение — уже часть ответа.\n\
            \n\
            ОФОРМЛЕНИЕ — ПОСЛЕДНИЙ ШАГ. Сначала готовый ответ, и только потом размечаешь HTML: \
            <b>жирный</b>, <i>курсив</i>, <code>код</code>, <pre>блоки/таблицы</pre>, <blockquote>цитата</blockquote>, <tg-spoiler>спойлер</tg-spoiler>. \
            Все теги закрывай.";

/// A command.
pub enum Command {
    Start,
    Help,
    Info,
    Ping,
    Stats,
    Window,
    Ask(String),
    AskFree(String),
}

/// What a character becomes in HTML.
pub open spec fn escaped_char(c: char) -> Seq<char> {
    if c == '&' {
        "&amp;"@
    } else if c == '<' {
        "&lt;"@
    } else if c == '>' {
        "&gt;"@
    } else {
        seq![c]
    }
}

/// What each character of `s` becomes in HTML.
pub open spec fn escaped_parts(s: Seq<char>) -> Seq<Seq<char>> {
    Seq::new(s.len(), |i: int| escaped_char(s[i]))
}

/// `s` as a text in HTML.
pub open spec fn escaped(s: Seq<char>) -> Seq<char> {
    concat_all(escaped_parts(s))
}

/// Writes a text so that HTML shows it as it is.
pub fn html_escape(text: &str) -> (r: String)
    ensures
        r@ == escaped(text@),
{
    let cs = chars_of(text);
    let mut out = String::new();
    let ghost parts = escaped_parts(text@);
    assert(parts.take(0) =~= Seq::empty());
    assert(out@ =~= concat_all(parts.take(0)));
    for i in 0..cs.len()
        invariant
            cs@ == text@,
            parts == escaped_parts(text@),
            out@ == concat_all(parts.take(i as int)),
    {
        proof {
            lemma_concat_step(parts, i as int);
        }
        let ghost before = out@;
        let c = cs[i];
        if c == '&' {
            out.append("&amp;");
        } else if c == '<' {
            out.append("&lt;");
        } else if c == '>' {
            out.append("&gt;");
        } else {
            out.push(c);
            assert(out@ =~= before + seq![c]);
        }
    }
    assert(parts.take(cs@.len() as int) =~= parts);
    out
}

/// No angle bracket is left, so nothing in the text can open or close a tag.
pub proof fn law_escaped_has_no_tags(s: Seq<char>)
    ensures
        forall|i: int|
            0 <= i < escaped(s).len() ==> #[trigger] escaped(s)[i] != '<' && escaped(s)[i] != '>',
    decreases s.len(),
{
    reveal_strlit("&amp;");
    reveal_strlit("&lt;");
    reveal_strlit("&gt;");
    if s.len() > 0 {
        let init = s.drop_last();
        law_escaped_has_no_tags(init);
        assert(escaped_parts(s).drop_last() =~= escaped_parts(init));
        let last = escaped_char(s.last());
        assert(escaped(s) == escaped(init) + last);
        assert forall|i: int| 0 <= i < escaped(s).len() implies #[trigger] escaped(s)[i] != '<'
            && escaped(s)[i] != '>' by {
            if i < escaped(init).len() {
                assert(escaped(s)[i] == escaped(init)[i]);
            } else {
                assert(escaped(s)[i] == last[i - escaped(init).len()]);
            }
        }
    }
}

/// Two texts one after the other are escaped each by itself.
pub proof fn law_escaping_is_piecewise(a: Seq<char>, b: Seq<char>)
    ensures
        escaped(a + b) == escaped(a) + escaped(b),
{
    assert(escaped_parts(a + b) =~= escaped_parts(a) + escaped_parts(b));
    lemma_concat_add(escaped_parts(a), escaped_parts(b));
}

/// The aliases in bold type.
pub open spec fn bold_aliases(aliases: Seq<Seq<char>>) -> Seq<Seq<char>> {
    Seq::new(aliases.len(), |i: int| "<b>"@ + escaped(aliases[i]) + "</b>"@)
}

/// How to call the bot; nothing where it has no aliases.
pub open spec fn aliases_line(aliases: Seq<Seq<char>>) -> Seq<char> {
    let list = join_seq(bold_aliases(aliases), ", "@);
    if list.len() == 0 {
        Seq::empty()
    } else {
        "\n<b>Чтобы позвать меня</b>, напиши: "@ + list
            + " или сделай реплай на любое моё сообщение."@
    }
}

/// The greeting.
pub fn start_text(aliases: &Vec<String>) -> (r: String)
    ensures
        r@ == START_HEAD@ + aliases_line(aliases.deep_view()) + START_TAIL@,
{
    let mut bold: Vec<String> = Vec::new();
    let ghost all = bold_aliases(aliases.deep_view());
    assert(bold.deep_view() =~= all.take(0));
    for i in 0..aliases.len()
        invariant
            all == bold_aliases(aliases.deep_view()),
            bold.deep_view() == all.take(i as int),
    {
        let mut one = "<b>".to_owned();
        one.append(html_escape(aliases[i].as_str()).as_str());
        one.append("</b>");
        assert(aliases.deep_view()[i as int] == aliases@[i as int]@);
        push_text(&mut bold, one.as_str());
        assert(bold.deep_view() =~= all.take(i + 1));
    }
    assert(all.take(aliases@.len() as int) =~= all);
    let list = join(&bold, ", ");
    let mut line = String::new();
    assert(line@ =~= Seq::<char>::empty());
    if !list.as_str().is_empty() {
        line = "\n<b>Чтобы позвать меня</b>, напиши: ".to_owned();
        line.append(list.as_str());
        line.append(" или сделай реплай на любое моё сообщение.");
    }
    let mut s = START_HEAD.to_owned();
    s.append(line.as_str());
    s.append(START_TAIL);
    s
}

/// The models, each where it belongs.
pub open spec fn info(or: OpenRouterConfig) -> Seq<char> {
    INFO_MAIN@ + escaped(or.model_main@) + INFO_PRO@ + escaped(or.model_pro@) + INFO_ASK_FREE@
        + escaped(or.model_ask_free@) + INFO_VISION@ + escaped(or.model_vision@) + INFO_DECISION@
        + escaped(or.model_decision@) + INFO_END@
}

/// What the bot is and which models it uses.
pub fn info_text(or: &OpenRouterConfig) -> (r: String)
    ensures
        r@ == info(*or),
{
    let mut s = INFO_MAIN.to_owned();
    s.append(html_escape(or.model_main.as_str()).as_str());
    s.append(INFO_PRO);
    s.append(html_escape(or.model_pro.as_str()).as_str());
    s.append(INFO_ASK_FREE);
    s.append(html_escape(or.model_ask_free.as_str()).as_str());
    s.append(INFO_VISION);
    s.append(html_escape(or.model_vision.as_str()).as_str());
    s.append(INFO_DECISION);
    s.append(html_escape(or.model_decision.as_str()).as_str());
    s.append(INFO_END);
    s
}

/// The answer to the question how many messages there are.
pub open spec fn stats(count: Option<i64>) -> Seq<char> {
    match count {
        Some(n) => "в этом чате "@ + decimal(n as int) + " сообщений"@,
        None => NO_COUNT@,
    }
}

/// The answer to the question how many messages there are; `None` where they could
/// not be counted.
pub fn stats_text(count: Option<i64>) -> (r: String)
    ensures
        r@ == stats(count),
{
    match count {
        Some(n) => {
            let mut s = "в этом чате ".to_owned();
            s.append(i64_to_string(n).as_str());
            s.append(" сообщений");
            s
        },
        None => NO_COUNT.to_owned(),
    }
}

/// The sender is one of the administrators.
pub open spec fn from_admin(msg: Incoming, bot: BotConfig) -> bool {
    msg.from is Some && bot.admin_ids@.contains(msg.from->0.id)
}

/// Whether the sender is one of the administrators.
pub fn is_admin(msg: &Incoming, bot: &BotConfig) -> (r: bool)
    ensures
        r == from_admin(*msg, *bot),
{
    if let Some(u) = &msg.from {
        for i in 0..bot.admin_ids.len()
            invariant
                msg.from == Some(*u),
                forall|k: int| 0 <= k < i ==> bot.admin_ids@[k] != u.id,
        {
            if bot.admin_ids[i] == u.id {
                return true;
            }
        }
    }
    false
}

/// What a command leads to.
pub enum CommandStep {
    /// Nothing.
    Ignore,
    /// Send a text in HTML.
    SendHtml(String),
    /// Send a plain text.
    Send(String),
    /// Send a plain text as an answer to the command.
    Answer(String),
    /// Count the chat's messages and report.
    Count,
    /// Read the chat's window and list it.
    ListWindow,
    /// Look whether this user has to wait.
    Cooldown(i64),
    /// Ask a model and stream its answer.
    Stream { model: String, messages: Vec<Message>, label: String },
}

/// The same as a mathematical value.
#[verifier::ext_equal]
pub enum CommandStepView {
    Ignore,
    SendHtml(Seq<char>),
    Send(Seq<char>),
    Answer(Seq<char>),
    Count,
    ListWindow,
    Cooldown(i64),
    Stream { model: Seq<char>, messages: Seq<MessageView>, label: Seq<char> },
}

impl DeepView for CommandStep {
    type V = CommandStepView;

    open spec fn deep_view(&self) -> CommandStepView {
        match self {
            CommandStep::Ignore => CommandStepView::Ignore,
            CommandStep::SendHtml(t) => CommandStepView::SendHtml(t@),
            CommandStep::Send(t) => CommandStepView::Send(t@),
            CommandStep::Answer(t) => CommandStepView::Answer(t@),
            CommandStep::Count => CommandStepView::Count,
            CommandStep::ListWindow => CommandStepView::ListWindow,
            CommandStep::Cooldown(id) => CommandStepView::Cooldown(*id),
            CommandStep::Stream { model, messages, label } => CommandStepView::Stream {
                model: model@,
                messages: messages.deep_view(),
                label: label@,
            },
        }
    }
}

/// The stream of the ask command.
pub open spec fn ask_stream(question: Seq<char>, or: OpenRouterConfig) -> CommandStepView {
    CommandStepView::Stream {
        model: or.model_pro@,
        messages: two_messages(ASK_PROMPT@, question),
        label: "/ask"@,
    }
}

/// The stream of the free ask command.
pub open spec fn ask_free_stream(question: Seq<char>, or: OpenRouterConfig) -> CommandStepView {
    CommandStepView::Stream {
        model: or.model_ask_free@,
        messages: two_messages(ASK_FREE_PROMPT@, question),
        label: "/askfree"@,
    }
}

/// The user whose cooldown counts.
pub open spec fn asker(msg: Incoming) -> i64 {
    match msg.from {
        Some(u) => u.id,
        None => 0,
    }
}

/// What a command leads to.
pub open spec fn handled(cmd: Command, msg: Incoming, cfg: Config) -> CommandStepView {
    match cmd {
        Command::Start => CommandStepView::SendHtml(
            START_HEAD@ + aliases_line(cfg.bot.aliases.deep_view()) + START_TAIL@,
        ),
        Command::Help => CommandStepView::SendHtml(HELP_TEXT@),
        Command::Info => CommandStepView::SendHtml(info(cfg.openrouter)),
        Command::Ping => CommandStepView::Send("pong"@),
        Command::Stats => CommandStepView::Count,
        Command::Window => if from_admin(msg, cfg.bot) {
            CommandStepView::ListWindow
        } else {
            CommandStepView::Ignore
        },
        Command::Ask(q) => if trim_seq(q@).len() == 0 {
            CommandStepView::Send(NO_QUESTION@)
        } else if from_admin(msg, cfg.bot) {
            ask_stream(q@, cfg.openrouter)
        } else {
            CommandStepView::Cooldown(asker(msg))
        },
        Command::AskFree(q) => if trim_seq(q@).len() == 0 {
            CommandStepView::Send(NO_QUESTION@)
        } else {
            ask_free_stream(q@, cfg.openrouter)
        },
    }
}

fn start_ask(question: &str, or: &OpenRouterConfig) -> (r: CommandStep)
    ensures
        r.deep_view() == ask_stream(question@, *or),
{
    CommandStep::Stream {
        model: or.model_pro.clone(),
        messages: system_and_user(ASK_PROMPT, question.to_owned()),
        label: "/ask".to_owned(),
    }
}

/// What a command leads to.
pub fn handle(cmd: &Command, msg: &Incoming, cfg: &Config) -> (r: CommandStep)
    ensures
        r.deep_view() == handled(*cmd, *msg, *cfg),
{
    match cmd {
        Command::Start => CommandStep::SendHtml(start_text(&cfg.bot.aliases)),
        Command::Help => CommandStep::SendHtml(HELP_TEXT.to_owned()),
        Command::Info => CommandStep::SendHtml(info_text(&cfg.openrouter)),
        Command::Ping => CommandStep::Send("pong".to_owned()),
        Command::Stats => CommandStep::Count,
        Command::Window => if is_admin(msg, &cfg.bot) {
            CommandStep::ListWindow
        } else {
            CommandStep::Ignore
        },
        Command::Ask(q) => {
            if is_blank(q.as_str()) {
                return CommandStep::Send(NO_QUESTION.to_owned());
            }
            if is_admin(msg, &cfg.bot) {
                return start_ask(q.as_str(), &cfg.openrouter);
            }
            CommandStep::Cooldown(
                match &msg.from {
                    Some(u) => u.id,
                    None => 0,
                },
            )
        },
        Command::AskFree(q) => {
            if is_blank(q.as_str()) {
                return CommandStep::Send(NO_QUESTION.to_owned());
            }
            CommandStep::Stream {
                model: cfg.openrouter.model_ask_free.clone(),
                messages: system_and_user(ASK_FREE_PROMPT, q.clone()),
                label: "/askfree".to_owned(),
            }
        },
    }
}

/// What follows the look at the cooldown: a user who has to wait is told how long.
pub open spec fn after_cooldown(
    question: Seq<char>,
    wait_sec: u64,
    or: OpenRouterConfig,
) -> CommandStepView {
    if wait_sec > 0 {
        CommandStepView::Answer(
            "подожди, ты уже спрашивал. следующий вопрос можно будет задать через "@ + decimal(
                wait_sec as int / 60,
            ) + " мин. "@ + decimal(wait_sec as int % 60) + " сек."@,
        )
    } else {
        ask_stream(question, or)
    }
}

/// What follows the look at the cooldown, which gave `wait_sec`; a look that failed
/// counts as 0.
pub fn handle_ask(question: &str, wait_sec: u64, or: &OpenRouterConfig) -> (r: CommandStep)
    ensures
        r.deep_view() == after_cooldown(question@, wait_sec, *or),
{
    if wait_sec > 0 {
        let mut s =
            "подожди, ты уже спрашивал. следующий вопрос можно будет задать через ".to_owned();
        s.append(u64_to_string(wait_sec / 60).as_str());
        s.append(" мин. ");
        s.append(u64_to_string(wait_sec % 60).as_str());
        s.append(" сек.");
        return CommandStep::Answer(s);
    }
    start_ask(question, or)
}

/// The line of the window listing for the entry at place `i`.
pub open spec fn listing_line(i: int, e: WorkingMessageView) -> Seq<char> {
    decimal(i + 1) + ". "@ + (match e.username {
        Some(u) => "@"@ + u,
        None => "uid:"@ + decimal(e.user_id as int),
    }) + (if e.media_desc is Some {
        " [media]"@
    } else {
        ""@
    }) + ": "@ + first_chars(e.text, WINDOW_TEXT as int) + "\n"@
}

/// The lines of the window listing.
pub open spec fn listing_lines(entries: Seq<WorkingMessageView>) -> Seq<Seq<char>> {
    Seq::new(entries.len(), |i: int| listing_line(i, entries[i]))
}

/// The window listing.
pub open spec fn listing(entries: Seq<WorkingMessageView>) -> Seq<char> {
    if entries.len() == 0 {
        "окно пустое"@
    } else {
        "working window ("@ + decimal(entries.len() as int) + " msgs):\n"@ + concat_all(
            listing_lines(entries),
        )
    }
}

fn listing_line_of(i: usize, e: &WorkingMessage) -> (r: String)
    requires
        i < usize::MAX,
    ensures
        r@ == listing_line(i as int, e.deep_view()),
{
    let mut s = usize_to_string(i + 1);
    s.append(". ");
    let who = match &e.username {
        Some(u) => joined("@", u.as_str()),
        None => joined("uid:", i64_to_string(e.user_id).as_str()),
    };
    s.append(who.as_str());
    s.append(
        if e.media_desc.is_some() {
            " [media]"
        } else {
            ""
        },
    );
    s.append(": ");
    s.append(first_n(e.text.as_str(), WINDOW_TEXT).as_str());
    s.append("\n");
    s
}

/// The window listing, in pieces that a message can hold.
pub fn handle_window(entries: &Vec<WorkingMessage>) -> (r: Vec<String>)
    ensures
        r.deep_view() == chunks(listing(entries.deep_view()), WINDOW_CHUNK),
{
    if entries.len() == 0 {
        return chunk_message("окно пустое", WINDOW_CHUNK);
    }
    let mut s = "working window (".to_owned();
    s.append(usize_to_string(entries.len()).as_str());
    s.append(" msgs):\n");
    let ghost head = s@;
    let ghost parts = listing_lines(entries.deep_view());
    assert(parts.take(0) =~= Seq::empty());
    assert(head + concat_all(parts.take(0)) =~= head);
    for i in 0..entries.len()
        invariant
            parts == listing_lines(entries.deep_view()),
            s@ == head + concat_all(parts.take(i as int)),
    {
        let line = listing_line_of(i, &entries[i]);
        proof {
            assert(entries.deep_view()[i as int] == entries@[i as int].deep_view());
            lemma_concat_step(parts, i as int);
        }
        s.append(line.as_str());
        assert(s@ =~= head + (concat_all(parts.take(i as int)) + line@));
    }
    assert(parts.take(entries@.len() as int) =~= parts);
    chunk_message(s.as_str(), WINDOW_CHUNK)
}

/// What is sent where the window could not be read.
pub fn window_failed(e: &Error) -> (r: String)
    ensures
        r@ == "redis сломался: "@ + e.deep_view().message(),
{
    joined("redis сломался: ", e.message().as_str())
}

} // verus!
