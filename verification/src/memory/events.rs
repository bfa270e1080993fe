//! Chat events: moments of a chat that are worth remembering.
//!
//! A message that is not plainly worthless becomes a candidate. Candidates wait in a
//! buffer until a model scores them.
use vstd::prelude::*;
use vstd::utf8::encode_utf8;

use crate::encoding::{hex_lower, hex_seq, is_uuid, sha256, sha256_digest, uuid_v4};
use crate::memory::retrieval::{retrieve_rows, rows_step, RetrieveEvent, RetrieveStep, Table};
use crate::storage::qdrant::{
    chat_query, push_int, push_value_text, search_similar, Payload, PayloadValueView, PayloadView,
    EVENTS_COLLECTION,
};
use crate::text::{
    chars_of, copy_opt, is_blank, is_space, is_whitespace, lowercase, starts_with, text_or,
    to_lowercase, trim, trim_seq,
};

verus! {

/// The kinds of events.
pub const CATEGORIES: [&'static str; 7] = [
    "quote",
    "event",
    "meme",
    "conflict",
    "fact",
    "media",
    "banger",
];

/// The shortest text that is a candidate by itself, in characters that are not white
/// space.
pub const HEURISTIC_MIN_TEXT_LEN: usize = 15;

/// A candidate.
pub struct CandidateRow {
    pub sqlite_message_id: i64,
    pub user_id: i64,
    pub username: Option<String>,
    pub text: String,
    pub media_desc: Option<String>,
}

/// A candidate as a mathematical value.
#[verifier::ext_equal]
pub struct CandidateRowView {
    pub sqlite_message_id: i64,
    pub user_id: i64,
    pub username: Option<Seq<char>>,
    pub text: Seq<char>,
    pub media_desc: Option<Seq<char>>,
}

impl DeepView for CandidateRow {
    type V = CandidateRowView;

    open spec fn deep_view(&self) -> CandidateRowView {
        CandidateRowView {
            sqlite_message_id: self.sqlite_message_id,
            user_id: self.user_id,
            username: self.username.deep_view(),
            text: self.text@,
            media_desc: self.media_desc.deep_view(),
        }
    }
}

impl CandidateRow {
    /// A copy of the candidate.
    pub fn copy(&self) -> (r: CandidateRow)
        ensures
            r == *self,
    {
        CandidateRow {
            sqlite_message_id: self.sqlite_message_id,
            user_id: self.user_id,
            username: copy_opt(&self.username),
            text: self.text.clone(),
            media_desc: copy_opt(&self.media_desc),
        }
    }
}

/// How many characters of `s` are not white space.
pub open spec fn solid_len(s: Seq<char>) -> nat
    decreases s.len(),
{
    if s.len() == 0 {
        0
    } else {
        solid_len(s.drop_last()) + (if is_space(s.last()) {
            0nat
        } else {
            1
        })
    }
}

fn count_solid(s: &str) -> (r: usize)
    ensures
        r == solid_len(s@),
{
    let cs = chars_of(s);
    let mut n: usize = 0;
    assert(s@.take(0) =~= Seq::<char>::empty());
    for i in 0..cs.len()
        invariant
            cs@ == s@,
            n == solid_len(s@.take(i as int)),
            n <= i,
    {
        assert(s@.take(i + 1).drop_last() =~= s@.take(i as int));
        if !is_whitespace(cs[i]) {
            n = n + 1;
        }
    }
    assert(s@.take(s@.len() as int) =~= s@);
    n
}

/// The message may be worth remembering: it is no command, and it has a text that is
/// long enough or media with a description.
pub open spec fn worth_scoring(text: Seq<char>, media_desc: Option<Seq<char>>) -> bool {
    let t = trim_seq(text);
    &&& !(t.len() > 0 && t[0] == '/')
    &&& (solid_len(t) >= HEURISTIC_MIN_TEXT_LEN || (media_desc is Some && trim_seq(
        media_desc->0,
    ).len() > 0))
}

/// Whether a message may be worth remembering.
pub fn is_candidate(text: &str, media_desc: Option<&str>) -> (r: bool)
    ensures
        r == worth_scoring(
            text@,
            match media_desc {
                Some(d) => Some(d@),
                None => None,
            },
        ),
{
    let t = trim(text);
    proof {
        reveal_strlit("/");
        assert("/"@ =~= seq!['/']);
        if t@.len() > 0 {
            assert(t@.take(1) =~= seq![t@[0]]);
            assert(t@.take(1)[0] == t@[0]);
        }
    }
    if starts_with(t.as_str(), "/") {
        return false;
    }
    let long_enough = count_solid(t.as_str()) >= HEURISTIC_MIN_TEXT_LEN;
    let described = match media_desc {
        Some(d) => !is_blank(d),
        None => false,
    };
    long_enough || described
}

/// What a message is recognised by, once its parts are in lower case.
pub open spec fn fingerprint(text: Seq<char>, media_desc: Option<Seq<char>>) -> Seq<char> {
    match media_desc {
        Some(d) => text + "\n"@ + d,
        None => text + "\n"@,
    }
}

/// The digest of what a message is recognised by.
pub open spec fn fingerprint_hash(text: Seq<char>, media_desc: Option<Seq<char>>) -> Seq<char> {
    hex_seq(sha256_digest(encode_utf8(fingerprint(text, media_desc))))
}

/// A message without a description has the digest of one with an empty description.
pub proof fn law_no_description_is_an_empty_one(text: Seq<char>)
    ensures
        fingerprint_hash(text, None) == fingerprint_hash(text, Some(Seq::empty())),
{
    assert(fingerprint(text, Some(Seq::empty())) =~= fingerprint(text, None));
}

/// The digest of what a message is recognised by, once its parts are in lower case: 64
/// digits.
pub fn lower_hash(text: &str, media_desc: Option<&str>) -> (r: String)
    ensures
        r@ == fingerprint_hash(
            text@,
            match media_desc {
                Some(d) => Some(d@),
                None => None,
            },
        ),
        r@.len() == 64,
        media_desc is None ==> r@ == fingerprint_hash(text@, Some(Seq::empty())),
{
    proof {
        law_no_description_is_an_empty_one(text@);
    }
    let mut s = text.to_owned();
    s.append("\n");
    if let Some(d) = media_desc {
        s.append(d);
    }
    let digest = sha256(s.as_str().as_bytes());
    hex_lower(digest.as_slice())
}

/// A text as it is compared: trimmed and in lower case.
pub open spec fn normal(s: Seq<char>) -> Seq<char> {
    lowercase(trim_seq(s))
}

/// The digest that two messages share where they say the same. No description counts as
/// an empty one.
pub open spec fn dedup_key(text: Seq<char>, media_desc: Option<Seq<char>>) -> Seq<char> {
    fingerprint_hash(normal(text), Some(normal(text_or(media_desc, Seq::empty()))))
}

/// The digest that two messages share where they say the same but for white space at
/// the ends and the case of the letters: 64 digits.
pub fn dedup_hash(text: &str, media_desc: Option<&str>) -> (r: String)
    ensures
        r@ == dedup_key(
            text@,
            match media_desc {
                Some(d) => Some(d@),
                None => None,
            },
        ),
        r@.len() == 64,
{
    let desc = match media_desc {
        Some(d) => d,
        None => "",
    };
    proof {
        reveal_strlit("");
        assert(""@ =~= Seq::empty());
    }
    let t = to_lowercase(trim(text).as_str());
    let d = to_lowercase(trim(desc).as_str());
    lower_hash(t.as_str(), Some(d.as_str()))
}

/// What happened since the last step.
pub enum EnqueueEvent {
    /// Recording the digest ended: whether it is new.
    Recorded(bool),
    /// The digest could not be recorded.
    NotRecorded,
    /// The candidate was written as a text.
    Wrote(String),
    /// The candidate could not be written as a text.
    NotWritten,
    /// The text was put in the buffer, which now has this length.
    Pushed(i64),
    /// The text could not be put in the buffer.
    NotPushed,
}

/// What happened, as a mathematical value.
#[verifier::ext_equal]
pub enum EnqueueEventView {
    Recorded(bool),
    NotRecorded,
    Wrote(Seq<char>),
    NotWritten,
    Pushed(i64),
    NotPushed,
}

/// What enqueuing a candidate does next.
pub enum EnqueueStep {
    /// Record this digest among the chat's recent ones.
    Record(String),
    /// Write the candidate as a text.
    Write,
    /// Put this text in the chat's buffer.
    Push(String),
    /// The length of the buffer, or 0 where the candidate is not in it.
    Done(i64),
}

/// A step as a mathematical value.
#[verifier::ext_equal]
pub enum EnqueueStepView {
    Record(Seq<char>),
    Write,
    Push(Seq<char>),
    Done(i64),
}

impl DeepView for EnqueueEvent {
    type V = EnqueueEventView;

    open spec fn deep_view(&self) -> EnqueueEventView {
        match self {
            EnqueueEvent::Recorded(b) => EnqueueEventView::Recorded(*b),
            EnqueueEvent::NotRecorded => EnqueueEventView::NotRecorded,
            EnqueueEvent::Wrote(t) => EnqueueEventView::Wrote(t@),
            EnqueueEvent::NotWritten => EnqueueEventView::NotWritten,
            EnqueueEvent::Pushed(n) => EnqueueEventView::Pushed(*n),
            EnqueueEvent::NotPushed => EnqueueEventView::NotPushed,
        }
    }
}

impl DeepView for EnqueueStep {
    type V = EnqueueStepView;

    open spec fn deep_view(&self) -> EnqueueStepView {
        match self {
            EnqueueStep::Record(h) => EnqueueStepView::Record(h@),
            EnqueueStep::Write => EnqueueStepView::Write,
            EnqueueStep::Push(t) => EnqueueStepView::Push(t@),
            EnqueueStep::Done(n) => EnqueueStepView::Done(*n),
        }
    }
}

/// The next step of enqueuing a message whose digest is `hash`.
pub open spec fn enqueue_step(
    row: CandidateRowView,
    hash: Seq<char>,
    seen: Seq<EnqueueEventView>,
) -> EnqueueStepView {
    if !worth_scoring(row.text, row.media_desc) {
        EnqueueStepView::Done(0)
    } else if seen.len() == 0 {
        EnqueueStepView::Record(hash)
    } else if seen[0] != EnqueueEventView::Recorded(true) {
        EnqueueStepView::Done(0)
    } else if seen.len() == 1 {
        EnqueueStepView::Write
    } else {
        match seen[1] {
            EnqueueEventView::Wrote(t) => if seen.len() == 2 {
                EnqueueStepView::Push(t)
            } else {
                match seen[2] {
                    EnqueueEventView::Pushed(n) => EnqueueStepView::Done(n),
                    _ => EnqueueStepView::Done(0),
                }
            },
            _ => EnqueueStepView::Done(0),
        }
    }
}

/// Enqueues a message as a candidate where it may be worth remembering and was not
/// seen within the last hour. Ends in the length of the buffer, or in 0 where the
/// message is not in it: whatever fails keeps the message out.
pub fn enqueue_candidate(row: &CandidateRow, seen: &[EnqueueEvent]) -> (r: EnqueueStep)
    ensures
        r.deep_view() == enqueue_step(
            row.deep_view(),
            dedup_key(row.text@, row.media_desc.deep_view()),
            seen.deep_view(),
        ),
{
    let desc: Option<&str> = match &row.media_desc {
        Some(d) => Some(d.as_str()),
        None => None,
    };
    if !is_candidate(row.text.as_str(), desc) {
        return EnqueueStep::Done(0);
    }
    if seen.len() == 0 {
        return EnqueueStep::Record(dedup_hash(row.text.as_str(), desc));
    }
    assert(seen.deep_view()[0] == seen@[0].deep_view());
    match &seen[0] {
        EnqueueEvent::Recorded(true) => {},
        _ => {
            return EnqueueStep::Done(0);
        },
    }
    if seen.len() == 1 {
        return EnqueueStep::Write;
    }
    assert(seen.deep_view()[1] == seen@[1].deep_view());
    match &seen[1] {
        EnqueueEvent::Wrote(t) => {
            if seen.len() == 2 {
                return EnqueueStep::Push(t.clone());
            }
            assert(seen.deep_view()[2] == seen@[2].deep_view());
            match &seen[2] {
                EnqueueEvent::Pushed(n) => EnqueueStep::Done(*n),
                _ => EnqueueStep::Done(0),
            }
        },
        _ => EnqueueStep::Done(0),
    }
}

/// The payload of an event's point, but for the row.
pub open spec fn event_payload(chat_id: i64, category: Seq<char>, score: u8) -> PayloadView {
    seq![
        ("chat_id"@, PayloadValueView::Int(chat_id)),
        ("category"@, PayloadValueView::Text(category)),
        ("score"@, PayloadValueView::Int(score as i64)),
    ]
}

/// A new event's point: a fresh id, and the payload but for the row.
pub fn insert(chat_id: i64, category: &str, score: u8) -> (r: (String, Payload))
    ensures
        is_uuid(r.0@, '4'),
        r.1.deep_view() == event_payload(chat_id, category@, score),
{
    let mut p: Payload = Vec::new();
    assert(p.deep_view() =~= Seq::empty());
    push_int(&mut p, "chat_id", chat_id);
    push_value_text(&mut p, "category", category);
    push_int(&mut p, "score", score as i64);
    assert(p.deep_view() =~= event_payload(chat_id, category@, score));
    (uuid_v4(), p)
}

/// The events of a chat that are closest to a vector, at most `top_k` of them; none
/// where anything fails.
pub fn retrieve_relevant(chat_id: i64, top_k: u32, seen: &[RetrieveEvent]) -> (r: RetrieveStep)
    ensures
        r.deep_view() == rows_step(
            chat_query(EVENTS_COLLECTION@, chat_id, top_k),
            Table::ChatEvents,
            seen.deep_view(),
        ),
{
    retrieve_rows(search_similar(EVENTS_COLLECTION, chat_id, top_k), Table::ChatEvents, seen)
}

/// Two messages that differ in white space at the ends and in case only share their
/// digest, so the second is recognised.
pub proof fn law_same_message_same_hash(
    a: Seq<char>,
    b: Seq<char>,
    desc_a: Option<Seq<char>>,
    desc_b: Option<Seq<char>>,
)
    requires
        normal(a) == normal(b),
        normal(text_or(desc_a, Seq::empty())) == normal(text_or(desc_b, Seq::empty())),
    ensures
        dedup_key(a, desc_a) == dedup_key(b, desc_b),
{
}

/// A message with a blank description shares its digest with one that has none.
pub proof fn law_blank_description_is_none(text: Seq<char>, desc: Seq<char>)
    requires
        trim_seq(desc).len() == 0,
    ensures
        dedup_key(text, Some(desc)) == dedup_key(text, None),
{
    assert(trim_seq(desc) =~= Seq::empty());
    assert(trim_seq(Seq::<char>::empty()) =~= Seq::empty());
}

/// A command is never a candidate, and neither is a message without text and
/// description.
pub proof fn law_no_command_is_a_candidate(text: Seq<char>, desc: Option<Seq<char>>)
    ensures
        trim_seq(text).len() > 0 && trim_seq(text)[0] == '/' ==> !worth_scoring(text, desc),
        trim_seq(text).len() == 0 && desc is None ==> !worth_scoring(text, desc),
{
}

} // verus!
