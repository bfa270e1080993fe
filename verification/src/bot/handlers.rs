//! What happens with a message: how it is kept, shown and answered.
use vstd::prelude::*;

use crate::bot::incoming::{
    body_of, carries_media, detect_media, extract_text, Incoming, Media,
};
use crate::config::RateLimitConfig;
use crate::error::{joined, Error, ErrorView};
use crate::memory::working::{WorkingMessage, WorkingMessageView};
use crate::storage::redis::{
    check_chat_quota, check_chat_quota_step, check_user_cooldown, check_user_cooldown_step, Outcome,
    OutcomeView, Step, StepView,
};
use crate::text::{
    copy_opt, decimal, first_chars, first_n, has_prefix, i64_to_string, starts_with, usize_to_string,
};

verus! {

/// The longest text that is kept, in characters.
pub const TEXT_MAX_LEN: usize = 8000;
/// How much of a text the log shows, in characters.
pub const TEXT_PREVIEW_LEN: usize = 100;
/// How many tokens an answer may take.
pub const REPLY_MAX_TOKENS: u32 = 2000;
/// The largest file that is described, in bytes.
pub const MAX_MEDIA_BYTES: usize = 10_485_760;

/// A text as it is kept.
pub open spec fn clipped(t: Option<Seq<char>>) -> Option<Seq<char>> {
    match t {
        Some(s) => Some(first_chars(s, TEXT_MAX_LEN as int)),
        None => None,
    }
}

/// A text as it is kept: cut where it is too long.
pub fn clip_text(t: Option<String>) -> (r: Option<String>)
    ensures
        r.deep_view() == clipped(t.deep_view()),
{
    match t {
        Some(s) => Some(first_n(s.as_str(), TEXT_MAX_LEN)),
        None => None,
    }
}

/// The name of a chat: its title, or else its account.
pub open spec fn label_of(msg: Incoming) -> Option<Seq<char>> {
    match msg.chat_title {
        Some(t) => Some(t@),
        None => msg.chat_username.deep_view(),
    }
}

/// The name of a chat: its title, or else its account.
pub fn chat_label(msg: &Incoming) -> (r: Option<String>)
    ensures
        r.deep_view() == label_of(*msg),
{
    match &msg.chat_title {
        Some(t) => Some(t.clone()),
        None => copy_opt(&msg.chat_username),
    }
}

/// A window entry as the model is shown it.
pub open spec fn window_line(w: WorkingMessageView) -> Seq<char> {
    let who = match w.username {
        Some(n) => n,
        None => "uid:"@ + decimal(w.user_id as int),
    };
    match w.media_desc {
        Some(d) => who + ": "@ + w.text + " ["@ + d + "]"@,
        None => who + ": "@ + w.text,
    }
}

/// A window entry as the model is shown it.
pub fn format_window_msg(w: &WorkingMessage) -> (r: String)
    ensures
        r@ == window_line(w.deep_view()),
{
    let mut s = match &w.username {
        Some(n) => n.clone(),
        None => joined("uid:", i64_to_string(w.user_id).as_str()),
    };
    s.append(": ");
    s.append(w.text.as_str());
    if let Some(d) = &w.media_desc {
        s.append(" [");
        s.append(d.as_str());
        s.append("]");
    }
    s
}

/// The message to be answered as the model is shown it.
pub open spec fn current_line(msg: Incoming, text: Seq<char>) -> Seq<char> {
    let who = match msg.from {
        Some(u) => match u.username {
            Some(n) => n@,
            None => u.first_name@,
        },
        None => "anon"@,
    };
    who + ": "@ + text
}

/// The message to be answered as the model is shown it.
pub fn format_current_msg(msg: &Incoming, text: &str) -> (r: String)
    ensures
        r@ == current_line(*msg, text@),
{
    let mut s = match &msg.from {
        Some(u) => match &u.username {
            Some(n) => n.clone(),
            None => u.first_name.clone(),
        },
        None => "anon".to_owned(),
    };
    s.append(": ");
    s.append(text);
    s
}

/// Media that can be described.
pub enum Perceived {
    Image { file_id: String, mime: String },
    Voice { file_id: String },
}

/// The same as a mathematical value.
#[verifier::ext_equal]
pub enum PerceivedView {
    Image { file_id: Seq<char>, mime: Seq<char> },
    Voice { file_id: Seq<char> },
}

impl DeepView for Perceived {
    type V = PerceivedView;

    open spec fn deep_view(&self) -> PerceivedView {
        match self {
            Perceived::Image { file_id, mime } => PerceivedView::Image {
                file_id: file_id@,
                mime: mime@,
            },
            Perceived::Voice { file_id } => PerceivedView::Voice { file_id: file_id@ },
        }
    }
}

impl PerceivedView {
    /// The file to be described.
    pub open spec fn file(self) -> Seq<char> {
        match self {
            PerceivedView::Image { file_id, .. } => file_id,
            PerceivedView::Voice { file_id } => file_id,
        }
    }
}

/// The file that is a picture, where there is one: a photo in its largest size, a
/// sticker that does not move, or a file of a picture kind. A voice message comes
/// behind a photo and before the others.
pub open spec fn classified(m: Media) -> Option<PerceivedView> {
    if m.photos matches Some(p) && p@.len() > 0 {
        Some(PerceivedView::Image { file_id: m.photos->0@.last()@, mime: "image/jpeg"@ })
    } else if let Some(v) = m.voice {
        Some(PerceivedView::Voice { file_id: v@ })
    } else if m.sticker matches Some(s) && !s.animated && !s.video {
        Some(PerceivedView::Image { file_id: m.sticker->0.file_id@, mime: "image/webp"@ })
    } else if m.document matches Some(d) && d.mime is Some && has_prefix(
        d.mime->0@,
        "image/"@,
    ) {
        Some(
            PerceivedView::Image {
                file_id: m.document->0.file_id@,
                mime: m.document->0.mime->0@,
            },
        )
    } else {
        None
    }
}

/// What of the media can be described. Videos, round videos, moving stickers and
/// other files cannot.
pub fn classify_media(m: &Media) -> (r: Option<Perceived>)
    ensures
        r.deep_view() == classified(*m),
{
    if let Some(p) = &m.photos {
        if p.len() > 0 {
            return Some(
                Perceived::Image {
                    file_id: p[p.len() - 1].clone(),
                    mime: "image/jpeg".to_owned(),
                },
            );
        }
    }
    if let Some(v) = &m.voice {
        return Some(Perceived::Voice { file_id: v.clone() });
    }
    if let Some(s) = &m.sticker {
        if !s.animated && !s.video {
            return Some(
                Perceived::Image { file_id: s.file_id.clone(), mime: "image/webp".to_owned() },
            );
        }
    }
    if let Some(d) = &m.document {
        if let Some(mime) = &d.mime {
            if starts_with(mime.as_str(), "image/") {
                return Some(
                    Perceived::Image { file_id: d.file_id.clone(), mime: mime.clone() },
                );
            }
        }
    }
    None
}

/// Only what a message carries can be described.
pub proof fn law_described_media_is_media(m: Media)
    ensures
        classified(m) is Some ==> carries_media(m),
{
}

/// What is kept of a message.
pub struct SavedMessage {
    pub user_id: i64,
    pub username: Option<String>,
    pub first_name: String,
    pub chat_id: i64,
    pub chat_title: Option<String>,
    pub tg_message_id: i64,
    pub text: Option<String>,
    pub has_media: bool,
    pub media_description: Option<String>,
    /// What goes to the window, where anything does.
    pub entry: Option<WorkingMessage>,
}

/// The same as a mathematical value.
#[verifier::ext_equal]
pub struct SavedMessageView {
    pub user_id: i64,
    pub username: Option<Seq<char>>,
    pub first_name: Seq<char>,
    pub chat_id: i64,
    pub chat_title: Option<Seq<char>>,
    pub tg_message_id: i64,
    pub text: Option<Seq<char>>,
    pub has_media: bool,
    pub media_description: Option<Seq<char>>,
    pub entry: Option<WorkingMessageView>,
}

impl DeepView for SavedMessage {
    type V = SavedMessageView;

    open spec fn deep_view(&self) -> SavedMessageView {
        SavedMessageView {
            user_id: self.user_id,
            username: self.username.deep_view(),
            first_name: self.first_name@,
            chat_id: self.chat_id,
            chat_title: self.chat_title.deep_view(),
            tg_message_id: self.tg_message_id,
            text: self.text.deep_view(),
            has_media: self.has_media,
            media_description: self.media_description.deep_view(),
            entry: self.entry.deep_view(),
        }
    }
}

/// What is kept of a message: nothing where it has no sender. It goes to the window
/// where it has a text, media or a description of media.
pub open spec fn saved(msg: Incoming, media_desc: Option<Seq<char>>) -> Option<SavedMessageView> {
    match msg.from {
        None => None,
        Some(u) => {
            let text = clipped(body_of(msg));
            let has_media = carries_media(msg.media);
            let shown = match text {
                Some(t) => t,
                None => Seq::empty(),
            };
            Some(
                SavedMessageView {
                    user_id: u.id,
                    username: u.username.deep_view(),
                    first_name: u.first_name@,
                    chat_id: msg.chat_id,
                    chat_title: label_of(msg),
                    tg_message_id: msg.message_id,
                    text,
                    has_media,
                    media_description: media_desc,
                    entry: if shown.len() > 0 || media_desc is Some || has_media {
                        Some(
                            WorkingMessageView {
                                user_id: u.id,
                                username: u.username.deep_view(),
                                text: shown,
                                media_desc,
                                ts: msg.date,
                                tg_message_id: Some(msg.message_id),
                            },
                        )
                    } else {
                        None
                    },
                },
            )
        },
    }
}

/// What is kept of a message.
pub fn save_message(msg: &Incoming, media_desc: Option<String>) -> (r: Option<SavedMessage>)
    ensures
        r.deep_view() == saved(*msg, media_desc.deep_view()),
{
    match &msg.from {
        None => None,
        Some(u) => {
            let text = clip_text(extract_text(msg));
            let has_media = detect_media(&msg.media);
            let shown = match &text {
                Some(t) => t.clone(),
                None => {
                    let s = String::new();
                    assert(s@ =~= Seq::<char>::empty());
                    s
                },
            };
            let entry = if !shown.as_str().is_empty() || media_desc.is_some() || has_media {
                Some(
                    WorkingMessage {
                        user_id: u.id,
                        username: copy_opt(&u.username),
                        text: shown,
                        media_desc: copy_opt(&media_desc),
                        ts: msg.date,
                        tg_message_id: Some(msg.message_id),
                    },
                )
            } else {
                None
            };
            Some(
                SavedMessage {
                    user_id: u.id,
                    username: copy_opt(&u.username),
                    first_name: u.first_name.clone(),
                    chat_id: msg.chat_id,
                    chat_title: chat_label(msg),
                    tg_message_id: msg.message_id,
                    text,
                    has_media,
                    media_description: media_desc,
                    entry,
                },
            )
        },
    }
}

/// What is kept of an answer that the bot sent; it goes to the window where it has a
/// text.
pub open spec fn saved_reply(
    sent: Incoming,
    bot_id: i64,
    bot_username: Seq<char>,
) -> SavedMessageView {
    let text = clipped(body_of(sent));
    SavedMessageView {
        user_id: bot_id,
        username: Some(bot_username),
        first_name: bot_username,
        chat_id: sent.chat_id,
        chat_title: label_of(sent),
        tg_message_id: sent.message_id,
        text,
        has_media: false,
        media_description: None,
        entry: match text {
            Some(t) => Some(
                WorkingMessageView {
                    user_id: bot_id,
                    username: Some(bot_username),
                    text: t,
                    media_desc: None,
                    ts: sent.date,
                    tg_message_id: Some(sent.message_id),
                },
            ),
            None => None,
        },
    }
}

/// What is kept of an answer that the bot sent.
pub fn persist_bot_reply(sent: &Incoming, bot_id: i64, bot_username: &str) -> (r: SavedMessage)
    ensures
        r.deep_view() == saved_reply(*sent, bot_id, bot_username@),
{
    let text = clip_text(extract_text(sent));
    let entry = match &text {
        Some(t) => Some(
            WorkingMessage {
                user_id: bot_id,
                username: Some(bot_username.to_owned()),
                text: t.clone(),
                media_desc: None,
                ts: sent.date,
                tg_message_id: Some(sent.message_id),
            },
        ),
        None => None,
    };
    SavedMessage {
        user_id: bot_id,
        username: Some(bot_username.to_owned()),
        first_name: bot_username.to_owned(),
        chat_id: sent.chat_id,
        chat_title: chat_label(sent),
        tg_message_id: sent.message_id,
        text,
        has_media: false,
        media_description: None,
        entry,
    }
}

/// The text that is kept never exceeds the cap, and the window is given the text that
/// is kept.
pub proof fn law_kept_text_fits(msg: Incoming, media_desc: Option<Seq<char>>)
    ensures
        saved(msg, media_desc) matches Some(s) ==> {
            &&& s.text matches Some(t) ==> t.len() <= TEXT_MAX_LEN
            &&& s.entry matches Some(e) ==> e.text == (match s.text {
                Some(t) => t,
                None => Seq::empty(),
            }) && e.tg_message_id == Some(msg.message_id)
        },
{
}

/// The next step of the two limits: the user's first, and the chat's only where the
/// user got through.
pub open spec fn rate_limit_step(
    chat_id: i64,
    user_id: Option<i64>,
    cfg: RateLimitConfig,
    seen: Seq<OutcomeView>,
) -> StepView<bool> {
    match user_id {
        None => check_chat_quota_step(chat_id, cfg.chat_max_per_min, seen),
        Some(id) => match check_user_cooldown_step(id, cfg.user_cooldown_sec, seen) {
            StepView::Done(true) => check_chat_quota_step(
                chat_id,
                cfg.chat_max_per_min,
                if cfg.user_cooldown_sec == 0 {
                    seen
                } else {
                    seen.skip(1)
                },
            ),
            other => other,
        },
    }
}

/// Checks the user's cooldown and then the chat's quota. A user who is stopped takes
/// nothing of the chat's quota. Ends in `false` where the answer is to be dropped.
pub fn rate_limit_pass(
    chat_id: i64,
    user_id: Option<i64>,
    cfg: &RateLimitConfig,
    seen: &[Outcome],
) -> (r: Step<bool>)
    ensures
        r.deep_view() == rate_limit_step(chat_id, user_id, *cfg, seen.deep_view()),
{
    match user_id {
        None => check_chat_quota(chat_id, cfg.chat_max_per_min, seen),
        Some(id) => match check_user_cooldown(id, cfg.user_cooldown_sec, seen) {
            Step::Done(true) => {
                if cfg.user_cooldown_sec == 0 {
                    check_chat_quota(chat_id, cfg.chat_max_per_min, seen)
                } else {
                    let rest = vstd::slice::slice_subrange(seen, 1, seen.len());
                    assert(rest.deep_view() =~= seen.deep_view().skip(1));
                    check_chat_quota(chat_id, cfg.chat_max_per_min, rest)
                }
            },
            other => other,
        },
    }
}

/// Takes in a piece of a file. A file that grows beyond the cap is given up.
pub fn download_file_bytes(buf: &mut Vec<u8>, piece: &[u8]) -> (r: Result<(), Error>)
    ensures
        match r {
            Ok(_) => old(buf)@.len() + piece@.len() <= MAX_MEDIA_BYTES && final(buf)@ == old(
                buf,
            )@ + piece@,
            Err(e) => old(buf)@.len() + piece@.len() > MAX_MEDIA_BYTES && final(buf)@ == old(
                buf,
            )@ && e.deep_view() == ErrorView::Other(
                "media exceeds "@ + decimal(MAX_MEDIA_BYTES as int) + " bytes during stream"@,
            ),
        },
{
    if buf.len() > MAX_MEDIA_BYTES || piece.len() > MAX_MEDIA_BYTES - buf.len() {
        let mut s = "media exceeds ".to_owned();
        s.append(usize_to_string(MAX_MEDIA_BYTES).as_str());
        s.append(" bytes during stream");
        return Err(Error::Other(s));
    }
    let ghost before = buf@;
    assert(before + piece@.take(0) =~= before);
    for i in 0..piece.len()
        invariant
            buf@ == before + piece@.take(i as int),
    {
        buf.push(piece[i]);
        assert(buf@ =~= before + piece@.take(i + 1));
    }
    assert(piece@.take(piece@.len() as int) =~= piece@);
    Ok(())
}

/// What happened since the last step.
#[derive(Clone, Copy, Debug, PartialEq, Eq, Structural)]
pub enum HandleEvent {
    /// What was asked for is done.
    Did,
    /// The answer to the question that was asked.
    Said(bool),
    /// What was asked for failed.
    Failed,
}

/// What handling a message does next.
#[derive(Clone, Copy, Debug, PartialEq, Eq, Structural)]
pub enum HandleStep {
    /// Keep the message.
    Save,
    /// Start the background work: describing the media where `perceive`, a summary,
    /// facts about the sender where there is one, and the scoring of candidates.
    Background { perceive: bool, user_id: Option<i64> },
    /// Decide whether to answer.
    Decide,
    /// Check the limits.
    Limit,
    /// Answer.
    Reply,
    /// Nothing any more.
    Done,
}

/// The next step of handling a message.
pub open spec fn handle_step(msg: Incoming, seen: Seq<HandleEvent>) -> HandleStep {
    if seen.len() == 0 {
        HandleStep::Save
    } else if seen.len() == 1 {
        HandleStep::Background {
            perceive: carries_media(msg.media),
            user_id: match msg.from {
                Some(u) => Some(u.id),
                None => None,
            },
        }
    } else if seen.len() == 2 {
        HandleStep::Decide
    } else if seen[2] != HandleEvent::Said(true) {
        HandleStep::Done
    } else if seen.len() == 3 {
        HandleStep::Limit
    } else if seen[3] != HandleEvent::Said(true) {
        HandleStep::Done
    } else if seen.len() == 4 {
        HandleStep::Reply
    } else {
        HandleStep::Done
    }
}

/// Handles a message: keeps it, starts the background work, and answers where it is
/// decided so and the limits let it. A message that could not be kept is handled all
/// the same; where the decision or the limits fail, there is no answer.
pub fn handle_message(msg: &Incoming, seen: &[HandleEvent]) -> (r: HandleStep)
    ensures
        r == handle_step(*msg, seen@),
{
    if seen.len() == 0 {
        return HandleStep::Save;
    }
    if seen.len() == 1 {
        return HandleStep::Background {
            perceive: detect_media(&msg.media),
            user_id: match &msg.from {
                Some(u) => Some(u.id),
                None => None,
            },
        };
    }
    if seen.len() == 2 {
        return HandleStep::Decide;
    }
    if seen[2] != HandleEvent::Said(true) {
        return HandleStep::Done;
    }
    if seen.len() == 3 {
        return HandleStep::Limit;
    }
    if seen[3] != HandleEvent::Said(true) || seen.len() > 4 {
        return HandleStep::Done;
    }
    HandleStep::Reply
}

/// The bot answers only where it was decided so and the limits let it.
pub proof fn law_no_answer_without_leave(msg: Incoming, seen: Seq<HandleEvent>)
    requires
        handle_step(msg, seen) == HandleStep::Reply,
    ensures
        seen.len() == 4,
        seen[2] == HandleEvent::Said(true),
        seen[3] == HandleEvent::Said(true),
{
}

} // verus!
