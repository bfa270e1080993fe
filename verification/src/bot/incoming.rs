//! A message as it comes in, as far as the bot reads it.
use vstd::prelude::*;

verus! {

/// Who sent a message.
pub struct Sender {
    pub id: i64,
    pub username: Option<String>,
    pub first_name: String,
}

/// A marked stretch of a text.
pub struct Entity {
    /// It names an account.
    pub mention: bool,
    pub text: String,
}

/// A file.
pub struct Document {
    pub file_id: String,
    /// The kind of file, such as `image/png`, where it is given.
    pub mime: Option<String>,
}

/// A sticker.
pub struct Sticker {
    pub file_id: String,
    pub animated: bool,
    pub video: bool,
}

/// What a message carries besides text.
pub struct Media {
    /// The sizes of a photo, the largest last.
    pub photos: Option<Vec<String>>,
    pub video: bool,
    pub voice: Option<String>,
    pub video_note: bool,
    pub document: Option<Document>,
    pub audio: bool,
    pub sticker: Option<Sticker>,
    pub animation: bool,
}

/// The message that a message answers.
pub struct RepliedTo {
    pub from_id: Option<i64>,
    pub media: Media,
}

/// A message.
pub struct Incoming {
    pub chat_id: i64,
    pub chat_title: Option<String>,
    pub chat_username: Option<String>,
    pub private: bool,
    pub message_id: i64,
    pub date: i64,
    pub from: Option<Sender>,
    pub text: Option<String>,
    pub caption: Option<String>,
    pub entities: Option<Vec<Entity>>,
    pub caption_entities: Option<Vec<Entity>>,
    pub media: Media,
    pub reply_to: Option<RepliedTo>,
}

/// An entity as a mathematical value.
pub struct EntityView {
    pub mention: bool,
    pub text: Seq<char>,
}

impl DeepView for Entity {
    type V = EntityView;

    open spec fn deep_view(&self) -> EntityView {
        EntityView { mention: self.mention, text: self.text@ }
    }
}

/// `m` carries something besides text.
pub open spec fn carries_media(m: Media) -> bool {
    m.photos is Some || m.video || m.voice is Some || m.video_note || m.document is Some || m.audio
        || m.sticker is Some || m.animation
}

impl Media {
    /// Nothing besides text.
    pub fn none() -> (r: Media)
        ensures
            !carries_media(r),
    {
        Media {
            photos: None,
            video: false,
            voice: None,
            video_note: false,
            document: None,
            audio: false,
            sticker: None,
            animation: false,
        }
    }
}

/// Whether a message carries something besides text.
pub fn detect_media(m: &Media) -> (r: bool)
    ensures
        r == carries_media(*m),
{
    m.photos.is_some() || m.video || m.voice.is_some() || m.video_note || m.document.is_some()
        || m.audio || m.sticker.is_some() || m.animation
}

/// The text of a message, or else the caption of what it carries.
pub open spec fn body_of(msg: Incoming) -> Option<Seq<char>> {
    match msg.text {
        Some(t) => Some(t@),
        None => msg.caption.deep_view(),
    }
}

/// The text of a message, or else the caption of what it carries.
pub fn extract_text(msg: &Incoming) -> (r: Option<String>)
    ensures
        r.deep_view() == body_of(*msg),
{
    match &msg.text {
        Some(t) => Some(t.clone()),
        None => match &msg.caption {
            Some(c) => Some(c.clone()),
            None => None,
        },
    }
}

} // verus!
