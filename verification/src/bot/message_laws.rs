//! What handling messages and commands promises as a whole.
use vstd::prelude::*;

use crate::bot::chunks::{chunks, law_chunks_are_the_text, law_chunks_fit};
use crate::bot::commands::{
    after_cooldown, aliases_line, bold_aliases, escaped, escaped_char, escaped_parts, handled,
    info, listing, listing_line, listing_lines, stats, Command, CommandStepView, ASK_FREE_PROMPT,
    ASK_PROMPT, INFO_ASK_FREE, INFO_DECISION, INFO_END, INFO_MAIN, INFO_PRO, INFO_VISION,
    START_HEAD, START_TAIL,
};
use crate::bot::handlers::{
    classified, handle_step, saved, saved_reply, HandleEvent, HandleStep, PerceivedView,
};
use crate::bot::incoming::{body_of, carries_media, Incoming, Media};
use crate::bot::perceive::{
    first_perceive, fresh_perceive, PerceiveActionView, PerceiveEventView, PerceivePhase,
};
use crate::config::{Config, DecisionConfig, OpenRouterConfig};
use crate::decision::{
    decided, entities_of, lowered, mentions, mentions_bot, names_occur, text_p,
};
use crate::encoding::{hex_seq, sha256_digest};
use crate::float_bits::FloatBits;
use crate::llm::client::text_message;
use crate::memory::working::WorkingMessageView;
use crate::text::{
    concat_all, contains_seq, decimal, join_seq, lowercase, same_ignoring_ascii_case, trim_seq,
};

verus! {

/// The text of a message, or else its caption.
pub open spec fn words_of(msg: Incoming) -> Option<Seq<char>> {
    match msg.text {
        Some(t) => Some(t@),
        None => match msg.caption {
            Some(c) => Some(c@),
            None => None,
        },
    }
}

/// There is something besides text in a message.
pub open spec fn has_something(m: Media) -> bool {
    ||| m.photos is Some
    ||| m.video
    ||| m.voice is Some
    ||| m.video_note
    ||| m.document is Some
    ||| m.audio
    ||| m.sticker is Some
    ||| m.animation
}

/// A message is kept as it came: who sent it, where, under which number, its text or
/// caption, up to 8000 characters of it, whether it carries media, and what these show.
/// One without a sender is not kept.
pub proof fn law_messages_are_kept_as_they_came(msg: Incoming, desc: Option<Seq<char>>)
    ensures
        saved(msg, desc) is Some <==> msg.from is Some,
        saved(msg, desc) matches Some(s) ==> {
            let u = msg.from->0;
            &&& s.user_id == u.id
            &&& s.username == u.username.deep_view()
            &&& s.first_name == u.first_name@
            &&& s.chat_id == msg.chat_id
            &&& s.tg_message_id == msg.message_id
            &&& s.has_media == has_something(msg.media)
            &&& s.media_description == desc
            &&& msg.chat_title is Some ==> s.chat_title == Some(msg.chat_title->0@)
            &&& msg.chat_title is None ==> s.chat_title == msg.chat_username.deep_view()
            &&& s.text is Some <==> words_of(msg) is Some
            &&& words_of(msg) is Some ==> {
                let words = words_of(msg)->0;
                &&& words.len() <= 8000 ==> s.text == Some(words)
                &&& words.len() > 8000 ==> s.text == Some(words.take(8000))
            }
        },
{
}

/// A message goes to the window where it has words, media or a description, and there it
/// stands with its sender, its words, its description, its time and its number.
pub proof fn law_messages_go_to_the_window(msg: Incoming, desc: Option<Seq<char>>)
    requires
        msg.from is Some,
    ensures
        ({
            let s = saved(msg, desc)->0;
            let words = match s.text {
                Some(t) => t,
                None => Seq::empty(),
            };
            &&& s.entry is Some <==> words.len() > 0 || desc is Some || has_something(msg.media)
            &&& s.entry matches Some(e) ==> {
                &&& e.user_id == msg.from->0.id
                &&& e.username == msg.from->0.username.deep_view()
                &&& e.text == words
                &&& e.media_desc == desc
                &&& e.ts == msg.date
                &&& e.tg_message_id == Some(msg.message_id)
            }
        }),
{
}

/// The bot's own answers are kept like messages, under its own name.
pub proof fn law_answers_are_kept_too(sent: Incoming, bot_id: i64, name: Seq<char>)
    ensures
        ({
            let s = saved_reply(sent, bot_id, name);
            &&& s.user_id == bot_id
            &&& s.username == Some(name)
            &&& s.first_name == name
            &&& s.chat_id == sent.chat_id
            &&& s.tg_message_id == sent.message_id
            &&& !s.has_media
            &&& s.media_description is None
            &&& s.text is Some <==> words_of(sent) is Some
            &&& words_of(sent) is Some ==> {
                let words = words_of(sent)->0;
                let kept = if words.len() <= 8000 {
                    words
                } else {
                    words.take(8000)
                };
                &&& s.text == Some(kept)
                &&& s.entry == Some(
                    WorkingMessageView {
                        user_id: bot_id,
                        username: Some(name),
                        text: kept,
                        media_desc: None,
                        ts: sent.date,
                        tg_message_id: Some(sent.message_id),
                    },
                )
            }
            &&& words_of(sent) is None ==> s.entry is None
        }),
{
}

/// Every message is kept, worked on in the background and decided on, whatever came of
/// the steps before; an answer follows exactly where it was decided so and the limits let
/// it, and after it the message is done.
pub proof fn law_handling_takes_its_course(
    msg: Incoming,
    a: HandleEvent,
    b: HandleEvent,
    c: HandleEvent,
    d: HandleEvent,
    e: HandleEvent,
)
    ensures
        handle_step(msg, Seq::empty()) == HandleStep::Save,
        handle_step(msg, seq![a]) == (HandleStep::Background {
            perceive: has_something(msg.media),
            user_id: match msg.from {
                Some(u) => Some(u.id),
                None => None,
            },
        }),
        handle_step(msg, seq![a, b]) == HandleStep::Decide,
        handle_step(msg, seq![a, b, c]) == (if c == HandleEvent::Said(true) {
            HandleStep::Limit
        } else {
            HandleStep::Done
        }),
        c == HandleEvent::Said(true) ==> handle_step(msg, seq![a, b, c, d]) == (if d
            == HandleEvent::Said(true) {
            HandleStep::Reply
        } else {
            HandleStep::Done
        }),
        handle_step(msg, seq![a, b, c, d, e]) == HandleStep::Done,
{
}

/// What of a message's media is described: a photo, in its largest size; else a voice
/// message; else a sticker that does not move; else a file that is a picture. Nothing
/// else is.
pub proof fn law_what_is_described(m: Media)
    ensures
        ({
            let photo = m.photos is Some && m.photos->0@.len() > 0;
            let voice = m.voice is Some;
            let still = m.sticker is Some && !m.sticker->0.animated && !m.sticker->0.video;
            let picture = m.document is Some && m.document->0.mime is Some
                && m.document->0.mime->0@.len() >= 6 && m.document->0.mime->0@.take(6)
                == "image/"@;
            &&& photo ==> classified(m) == Some(
                PerceivedView::Image {
                    file_id: m.photos->0@[m.photos->0@.len() - 1]@,
                    mime: "image/jpeg"@,
                },
            )
            &&& !photo && voice ==> classified(m) == Some(
                PerceivedView::Voice { file_id: m.voice->0@ },
            )
            &&& !photo && !voice && still ==> classified(m) == Some(
                PerceivedView::Image { file_id: m.sticker->0.file_id@, mime: "image/webp"@ },
            )
            &&& !photo && !voice && !still && picture ==> classified(m) == Some(
                PerceivedView::Image {
                    file_id: m.document->0.file_id@,
                    mime: m.document->0.mime->0@,
                },
            )
            &&& !photo && !voice && !still && !picture ==> classified(m) is None
        }),
{
    reveal_strlit("image/");
}

/// Describing media from the file to the description. The file is fetched and looked up
/// in the cache by its digest. A description that is there is used. Otherwise a slot is
/// taken, the model asked, the slot given back, and the description kept under the digest
/// of the file and handed out.
pub proof fn law_describing_takes_its_course(
    kind: PerceivedView,
    bytes: Seq<u8>,
    kept: Seq<char>,
    said: Seq<char>,
    released: PerceiveEventView,
    cached: PerceiveEventView,
)
    requires
        0 < bytes.len() <= 10_485_760,
    ensures
        ({
            let sha = hex_seq(sha256_digest(bytes));
            let file = match kind {
                PerceivedView::Image { file_id, .. } => file_id,
                PerceivedView::Voice { file_id } => file_id,
            };
            let start = fresh_perceive(Some(kind));
            let r1 = start.on(PerceiveEventView::Downloaded(bytes));
            let r2 = r1.0.on(PerceiveEventView::Cached(None));
            let r3 = r2.0.on(PerceiveEventView::Acquired(true));
            let r4 = r3.0.on(PerceiveEventView::Described(said));
            let r5 = r4.0.on(released);
            let r6 = r5.0.on(cached);
            &&& first_perceive(Some(kind)) == PerceiveActionView::Download(file)
            &&& r1.1 == PerceiveActionView::LookUp(sha)
            &&& r1.0.on(PerceiveEventView::Cached(Some(kept))).1 == PerceiveActionView::Done(
                Some(kept),
            )
            &&& r2.1 == PerceiveActionView::Acquire
            &&& r1.0.on(PerceiveEventView::Failed) == r2
            &&& r3.1 == PerceiveActionView::Describe
            &&& r4.1 == PerceiveActionView::Release
            &&& r5.1 == (PerceiveActionView::Cache { sha, desc: said })
            &&& r6.1 == PerceiveActionView::Done(Some(said))
        }),
{
}

/// Whatever fails, there is no description, and the rest goes on without one: a file that
/// cannot be fetched, is empty or too large, no slot, and a model that does not answer.
pub proof fn law_no_description_is_no_failure(
    kind: PerceivedView,
    bytes: Seq<u8>,
    large: Seq<u8>,
    released: PerceiveEventView,
)
    requires
        0 < bytes.len() <= 10_485_760,
        large.len() == 0 || large.len() > 10_485_760,
    ensures
        ({
            let none = PerceiveActionView::Done(None);
            let start = fresh_perceive(Some(kind));
            let r2 = start.on(PerceiveEventView::Downloaded(bytes)).0.on(
                PerceiveEventView::Cached(None),
            ).0;
            let r4 = r2.on(PerceiveEventView::Acquired(true)).0.on(PerceiveEventView::Failed);
            &&& first_perceive(None) == none
            &&& fresh_perceive(None).phase == PerceivePhase::Ended
            &&& start.on(PerceiveEventView::Failed).1 == none
            &&& start.on(PerceiveEventView::Downloaded(large)).1 == none
            &&& r2.on(PerceiveEventView::Acquired(false)).1 == none
            &&& r2.on(PerceiveEventView::Failed).1 == none
            &&& r4.1 == PerceiveActionView::Release
            &&& r4.0.on(released).1 == none
        }),
{
}

/// The question reaches the model as it was asked, together with the role, and the model
/// is the one of the command. A question that is blank reaches none.
pub proof fn law_questions_reach_the_model(cmd: Command, msg: Incoming, cfg: Config, wait: u64)
    ensures
        ({
            let admin = msg.from is Some && exists|i: int|
                0 <= i < cfg.bot.admin_ids@.len() && #[trigger] cfg.bot.admin_ids@[i]
                    == msg.from->0.id;
            let forgot = CommandStepView::Send("ты забыл написать вопрос после команды."@);
            match cmd {
                Command::Ask(q) => {
                    let ask = CommandStepView::Stream {
                        model: cfg.openrouter.model_pro@,
                        messages: seq![
                            text_message("system"@, ASK_PROMPT@),
                            text_message("user"@, q@),
                        ],
                        label: "/ask"@,
                    };
                    &&& trim_seq(q@).len() == 0 ==> handled(cmd, msg, cfg) == forgot
                    &&& trim_seq(q@).len() > 0 && admin ==> handled(cmd, msg, cfg) == ask
                    &&& trim_seq(q@).len() > 0 && !admin ==> handled(cmd, msg, cfg)
                        == CommandStepView::Cooldown(
                        if msg.from is Some {
                            msg.from->0.id
                        } else {
                            0
                        },
                    )
                    &&& after_cooldown(q@, 0, cfg.openrouter) == ask
                    &&& wait > 0 ==> after_cooldown(q@, wait, cfg.openrouter) is Answer
                },
                Command::AskFree(q) => {
                    &&& trim_seq(q@).len() == 0 ==> handled(cmd, msg, cfg) == forgot
                    &&& trim_seq(q@).len() > 0 ==> handled(cmd, msg, cfg) == (
                    CommandStepView::Stream {
                        model: cfg.openrouter.model_ask_free@,
                        messages: seq![
                            text_message("system"@, ASK_FREE_PROMPT@),
                            text_message("user"@, q@),
                        ],
                        label: "/askfree"@,
                    })
                },
                Command::Window => {
                    &&& admin ==> handled(cmd, msg, cfg) == CommandStepView::ListWindow
                    &&& !admin ==> handled(cmd, msg, cfg) == CommandStepView::Ignore
                },
                Command::Ping => handled(cmd, msg, cfg) == CommandStepView::Send("pong"@),
                Command::Stats => handled(cmd, msg, cfg) == CommandStepView::Count,
                _ => handled(cmd, msg, cfg) is SendHtml,
            }
        }),
{
    if msg.from is Some {
        let id = msg.from->0.id;
        let ids = cfg.bot.admin_ids@;
        if exists|i: int| 0 <= i < ids.len() && #[trigger] ids[i] == id {
            let i = choose|i: int| 0 <= i < ids.len() && #[trigger] ids[i] == id;
            assert(ids.contains(id));
        }
    }
}

/// A user who has to wait is told how long, in minutes and seconds.
pub proof fn law_the_wait_is_told(question: Seq<char>, m: u64, s: u64, or: OpenRouterConfig)
    requires
        s < 60,
        0 < 60 * m + s <= u64::MAX,
    ensures
        after_cooldown(question, (60 * m + s) as u64, or) == CommandStepView::Answer(
            "подожди, ты уже спрашивал. следующий вопрос можно будет задать через "@ + decimal(
                m as int,
            ) + " мин. "@ + decimal(s as int) + " сек."@,
        ),
{
    assert((60 * m + s) / 60 == m && (60 * m + s) % 60 == s) by (nonlinear_arith)
        requires
            s < 60,
    ;
}

/// The window listing has a line for each entry, by number, in their order.
pub open spec fn entries_listed(entries: Seq<WorkingMessageView>) -> Seq<char>
    decreases entries.len(),
{
    if entries.len() == 0 {
        Seq::empty()
    } else {
        let e = entries.last();
        let who = match e.username {
            Some(u) => "@"@ + u,
            None => "uid:"@ + decimal(e.user_id as int),
        };
        let mark = if e.media_desc is Some {
            " [media]"@
        } else {
            ""@
        };
        let words = if e.text.len() <= 120 {
            e.text
        } else {
            e.text.take(120)
        };
        entries_listed(entries.drop_last()) + decimal(entries.len() as int) + ". "@ + who + mark
            + ": "@ + words + "\n"@
    }
}

proof fn lemma_entries_listed(entries: Seq<WorkingMessageView>)
    ensures
        concat_all(listing_lines(entries)) == entries_listed(entries),
    decreases entries.len(),
{
    if entries.len() > 0 {
        lemma_entries_listed(entries.drop_last());
        let all = listing_lines(entries);
        assert(all.drop_last() =~= listing_lines(entries.drop_last()));
        assert(all.last() == listing_line(entries.len() - 1, entries.last()));
        assert(concat_all(all) =~= entries_listed(entries));
    }
}

/// The window is listed whole: the number of its entries and a line for each, in pieces
/// that fit in a message and together are the listing.
pub proof fn law_the_window_is_listed_whole(entries: Seq<WorkingMessageView>)
    requires
        entries.len() > 0,
    ensures
        listing(entries) == "working window ("@ + decimal(entries.len() as int) + " msgs):\n"@
            + entries_listed(entries),
        concat_all(chunks(listing(entries), 4000)) == listing(entries),
        forall|i: int|
            0 <= i < chunks(listing(entries), 4000).len() ==> (#[trigger] chunks(
                listing(entries),
                4000,
            )[i]).len() <= 4000,
{
    lemma_entries_listed(entries);
    law_chunks_are_the_text(listing(entries), 4000);
    if listing(entries).len() > 0 {
        law_chunks_fit(listing(entries), 4000);
    }
}

/// The report on the models names each of them in its place.
pub proof fn law_info_names_every_model(or: OpenRouterConfig)
    ensures
        info(or) == INFO_MAIN@ + escaped(or.model_main@) + (INFO_PRO@ + escaped(or.model_pro@)) + (
        INFO_ASK_FREE@ + escaped(or.model_ask_free@)) + (INFO_VISION@ + escaped(
            or.model_vision@,
        )) + (INFO_DECISION@ + escaped(or.model_decision@)) + INFO_END@,
{
    assert(info(or) =~= INFO_MAIN@ + escaped(or.model_main@) + (INFO_PRO@ + escaped(
        or.model_pro@,
    )) + (INFO_ASK_FREE@ + escaped(or.model_ask_free@)) + (INFO_VISION@ + escaped(
        or.model_vision@,
    )) + (INFO_DECISION@ + escaped(or.model_decision@)) + INFO_END@);
}

/// The number of messages that is told is the one that was counted.
pub proof fn law_the_count_is_told(n: i64)
    ensures
        stats(Some(n)) == "в этом чате "@ + decimal(n as int) + " сообщений"@,
        contains_seq(stats(Some(n)), decimal(n as int)),
        stats(None) == "не смог посчитать, ну и хрен с ним"@,
{
    let a = "в этом чате "@;
    let d = decimal(n as int);
    let s = stats(Some(n));
    assert(s.subrange(a.len() as int, a.len() as int + d.len()) =~= d);
}

/// The greeting tells every alias, in their order, and none where there is none.
pub proof fn law_the_greeting_tells_every_alias(
    msg: Incoming,
    cfg: Config,
    aliases: Seq<Seq<char>>,
    alias: Seq<char>,
)
    ensures
        handled(Command::Start, msg, cfg) == CommandStepView::SendHtml(
            START_HEAD@ + aliases_line(cfg.bot.aliases.deep_view()) + START_TAIL@,
        ),
        aliases_line(Seq::empty()).len() == 0,
        join_seq(bold_aliases(seq![alias]), ", "@) == "<b>"@ + escaped(alias) + "</b>"@,
        aliases.len() > 0 ==> join_seq(bold_aliases(aliases.push(alias)), ", "@) == join_seq(
            bold_aliases(aliases),
            ", "@,
        ) + ", "@ + "<b>"@ + escaped(alias) + "</b>"@,
        aliases.len() > 0 ==> aliases_line(aliases)
            == "\n<b>Чтобы позвать меня</b>, напиши: "@ + join_seq(bold_aliases(aliases), ", "@)
            + " или сделай реплай на любое моё сообщение."@,
{
    reveal_strlit("<b>");
    assert(bold_aliases(aliases.push(alias)).drop_last() =~= bold_aliases(aliases));
    assert(join_seq(bold_aliases(Seq::empty()), ", "@) =~= Seq::empty());
    if aliases.len() > 0 {
        let all = bold_aliases(aliases);
        assert(join_seq(all, ", "@).len() > 0) by {
            lemma_join_long(all, ", "@);
        }
        assert(join_seq(bold_aliases(aliases.push(alias)), ", "@) =~= join_seq(
            bold_aliases(aliases),
            ", "@,
        ) + ", "@ + "<b>"@ + escaped(alias) + "</b>"@);
    }
}

proof fn lemma_join_long(parts: Seq<Seq<char>>, sep: Seq<char>)
    requires
        parts.len() > 0,
        parts.last().len() > 0,
    ensures
        join_seq(parts, sep).len() > 0,
{
}

/// A text in HTML shows every character as it was: the three that have a meaning there
/// are written by name, the others stand for themselves.
pub proof fn law_html_shows_every_character(s: Seq<char>, c: char)
    ensures
        escaped(Seq::empty()).len() == 0,
        escaped(s.push(c)) == escaped(s) + (if c == '&' {
            "&amp;"@
        } else if c == '<' {
            "&lt;"@
        } else if c == '>' {
            "&gt;"@
        } else {
            seq![c]
        }),
{
    assert(escaped_parts(s.push(c)).drop_last() =~= escaped_parts(s));
    assert(escaped_parts(s.push(c)).last() == escaped_char(c));
    assert(escaped_parts(Seq::empty()) =~= Seq::empty());
}

/// The message names the bot's account in one of its marks: those of its text, or else
/// those of its caption.
pub open spec fn names_the_bot(msg: Incoming, bot_username: Seq<char>) -> bool {
    let name = "@"@ + bot_username;
    match (msg.entities, msg.caption_entities) {
        (Some(marks), _) => exists|i: int|
            0 <= i < marks@.len() && (#[trigger] marks@[i]).mention && same_ignoring_ascii_case(
                marks@[i].text@,
                name,
            ),
        (None, Some(marks)) => exists|i: int|
            0 <= i < marks@.len() && (#[trigger] marks@[i]).mention && same_ignoring_ascii_case(
                marks@[i].text@,
                name,
            ),
        _ => false,
    }
}

/// The words of the message hold the bot's name or one of its aliases, whatever the case.
pub open spec fn words_call_the_bot(
    msg: Incoming,
    bot_username: Seq<char>,
    aliases: Seq<Seq<char>>,
) -> bool {
    words_of(msg) is Some && {
        let words = lowercase(words_of(msg)->0);
        ||| contains_seq(words, lowercase(bot_username))
        ||| exists|i: int|
            0 <= i < aliases.len() && contains_seq(words, lowercase(#[trigger] aliases[i]))
    }
}

proof fn lemma_named(msg: Incoming, bot_username: Seq<char>)
    ensures
        mentions_bot(msg, bot_username) == names_the_bot(msg, bot_username),
{
    let name = "@"@ + bot_username;
    let all = entities_of(msg);
    if mentions_bot(msg, bot_username) {
        let i = choose|i: int| 0 <= i < all.len() && mentions(#[trigger] all[i], name);
        if msg.entities is Some {
            assert(msg.entities->0@[i].mention);
        } else {
            assert(msg.caption_entities->0@[i].mention);
        }
    }
    if names_the_bot(msg, bot_username) {
        let marks = if msg.entities is Some {
            msg.entities->0@
        } else {
            msg.caption_entities->0@
        };
        let i = choose|i: int|
            0 <= i < marks.len() && (#[trigger] marks[i]).mention && same_ignoring_ascii_case(
                marks[i].text@,
                name,
            );
        assert(mentions(all[i], name));
    }
}

/// With all three probabilities at 1 the bot answers a message exactly where there is
/// something to answer and it is addressed: in a private chat, by a mark with its name,
/// by an answer to one of its messages, or by its name or an alias in the words.
pub proof fn law_the_bot_answers_when_called(
    msg: Incoming,
    bot_id: i64,
    bot_username: Seq<char>,
    aliases: Seq<Seq<char>>,
    cfg: DecisionConfig,
)
    requires
        cfg.mention_p == FloatBits::one_spec(),
        cfg.reply_p == FloatBits::one_spec(),
        cfg.alias_in_text_p == FloatBits::one_spec(),
    ensures
        decided(msg, bot_id, bot_username, text_p(msg, aliases, bot_username, cfg), cfg).reply <==> {
            &&& words_of(msg) is Some || has_something(msg.media)
            &&& {
                ||| msg.private
                ||| names_the_bot(msg, bot_username)
                ||| msg.reply_to is Some && msg.reply_to->0.from_id == Some(bot_id)
                ||| words_call_the_bot(msg, bot_username, aliases)
            }
        },
{
    lemma_named(msg, bot_username);
    assert(body_of(msg) == words_of(msg));
    assert(carries_media(msg.media) == has_something(msg.media));
    if words_of(msg) is Some {
        let words = lowercase(words_of(msg)->0);
        let low = lowered(aliases);
        if names_occur(words, low) {
            let i = choose|i: int| 0 <= i < low.len() && contains_seq(words, #[trigger] low[i]);
            assert(contains_seq(words, lowercase(aliases[i])));
        }
        if exists|i: int|
            0 <= i < aliases.len() && contains_seq(words, lowercase(#[trigger] aliases[i])) {
            let i = choose|i: int|
                0 <= i < aliases.len() && contains_seq(words, lowercase(#[trigger] aliases[i]));
            assert(contains_seq(words, low[i]));
        }
    }
}

/// With all three probabilities at 0 the bot is silent in a group, and answers in a
/// private chat all the same.
pub proof fn law_the_bot_can_be_silenced(
    msg: Incoming,
    bot_id: i64,
    bot_username: Seq<char>,
    aliases: Seq<Seq<char>>,
    cfg: DecisionConfig,
)
    requires
        cfg.mention_p == FloatBits::zero_spec(),
        cfg.reply_p == FloatBits::zero_spec(),
        cfg.alias_in_text_p == FloatBits::zero_spec(),
    ensures
        decided(msg, bot_id, bot_username, text_p(msg, aliases, bot_username, cfg), cfg).reply <==> {
            &&& words_of(msg) is Some || has_something(msg.media)
            &&& msg.private
        },
{
    assert(body_of(msg) == words_of(msg));
    assert(carries_media(msg.media) == has_something(msg.media));
    assert(!FloatBits::zero_spec().at_least(FloatBits::one_spec()));
}

} // verus!
