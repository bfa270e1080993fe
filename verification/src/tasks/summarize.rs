//! Summaries of a chat, every so many messages.
use vstd::prelude::*;

use crate::encoding::{is_uuid, uuid_v4};
use crate::error::{Error, ErrorView};
use crate::llm::client::{system_and_user, two_messages, Message, MessageView};
use crate::llm::prompts::summary::SUMMARY_PROMPT;
use crate::storage::qdrant::{push_int, push_value_text, Payload, PayloadValueView, PayloadView};
use crate::text::{
    concat_all, is_blank, lemma_concat_step, opt_or, text_or, trim, trim_seq,
};

verus! {

/// How many tokens a summary may take.
pub const SUMMARY_MAX_TOKENS: u32 = 300;

/// A message of the chat.
pub struct MessageRow {
    pub user_id: i64,
    pub username: Option<String>,
    pub text: Option<String>,
    pub media_description: Option<String>,
}

/// A message of the chat as a mathematical value.
#[verifier::ext_equal]
pub struct MessageRowView {
    pub user_id: i64,
    pub username: Option<Seq<char>>,
    pub text: Option<Seq<char>>,
    pub media_description: Option<Seq<char>>,
}

impl DeepView for MessageRow {
    type V = MessageRowView;

    open spec fn deep_view(&self) -> MessageRowView {
        MessageRowView {
            user_id: self.user_id,
            username: self.username.deep_view(),
            text: self.text.deep_view(),
            media_description: self.media_description.deep_view(),
        }
    }
}

/// The line of a message; nothing where there is neither text nor description.
pub open spec fn summary_line(m: MessageRowView) -> Seq<char> {
    let who = text_or(m.username, "anon"@);
    let text = text_or(m.text, ""@);
    match m.media_description {
        Some(d) => who + ": "@ + text + " ["@ + d + "]\n"@,
        None => if text.len() == 0 {
            ""@
        } else {
            who + ": "@ + text + "\n"@
        },
    }
}

/// The lines of the messages, the oldest first, where `rows` has the latest first.
pub open spec fn summary_lines(rows: Seq<MessageRowView>) -> Seq<Seq<char>> {
    Seq::new(rows.len(), |i: int| summary_line(rows[rows.len() - 1 - i]))
}

/// What the model is asked to summarise: the messages, the oldest first; `rows` has
/// the latest first.
pub fn format_messages_for_summary(rows: &Vec<MessageRow>) -> (r: String)
    ensures
        r@ == concat_all(summary_lines(rows.deep_view())),
{
    let mut s = String::new();
    let ghost parts = summary_lines(rows.deep_view());
    let n = rows.len();
    assert(parts.take(0) =~= Seq::empty());
    assert(s@ =~= concat_all(parts.take(0)));
    for i in 0..n
        invariant
            n == rows@.len(),
            parts == summary_lines(rows.deep_view()),
            s@ == concat_all(parts.take(i as int)),
    {
        let m = &rows[n - 1 - i];
        let text = opt_or(&m.text, "");
        let mut line = "".to_owned();
        if let Some(d) = &m.media_description {
            line = opt_or(&m.username, "anon").to_owned();
            line.append(": ");
            line.append(text);
            line.append(" [");
            line.append(d.as_str());
            line.append("]\n");
        } else if !text.is_empty() {
            line = opt_or(&m.username, "anon").to_owned();
            line.append(": ");
            line.append(text);
            line.append("\n");
        }
        proof {
            assert(rows.deep_view()[n - 1 - i] == rows@[n - 1 - i].deep_view());
            assert(line@ == parts[i as int]);
            lemma_concat_step(parts, i as int);
        }
        s.append(line.as_str());
    }
    assert(parts.take(n as int) =~= parts);
    s
}

/// The payload of a summary's point, but for the row.
pub open spec fn summary_payload(chat_id: i64, text: Seq<char>) -> PayloadView {
    seq![
        ("chat_id"@, PayloadValueView::Int(chat_id)),
        ("text"@, PayloadValueView::Text(text)),
    ]
}

/// A new summary's point: a fresh id, and the payload but for the row.
pub fn summary_point(chat_id: i64, text: &str) -> (r: (String, Payload))
    ensures
        is_uuid(r.0@, '4'),
        r.1.deep_view() == summary_payload(chat_id, text@),
{
    let mut p: Payload = Vec::new();
    assert(p.deep_view() =~= Seq::empty());
    push_int(&mut p, "chat_id", chat_id);
    push_value_text(&mut p, "text", text);
    assert(p.deep_view() =~= summary_payload(chat_id, text@));
    (uuid_v4(), p)
}

/// What the summary waits for.
#[derive(Clone, Copy, Debug, PartialEq, Eq, Structural)]
pub enum SummaryPhase {
    /// The count of the chat's messages.
    Counting,
    /// The count being started anew.
    Resetting,
    /// The chat's messages.
    Reading,
    /// The model's answer.
    Asking,
    /// The vector of the summary.
    Embedding,
    /// The summary being stored.
    Storing,
    /// Nothing any more.
    Ended,
}

/// A summary between two of its steps.
pub struct SummaryRun {
    pub phase: SummaryPhase,
    pub threshold: i64,
    pub lookback: i64,
    pub model: String,
    pub text: String,
}

/// The same as a mathematical value.
#[verifier::ext_equal]
pub struct SummaryRunView {
    pub phase: SummaryPhase,
    pub threshold: i64,
    pub lookback: i64,
    pub model: Seq<char>,
    pub text: Seq<char>,
}

/// What happened since the last step.
pub enum SummaryEvent {
    /// The count is now this.
    Counted(i64),
    /// The chat's messages, the latest first.
    Messages(Vec<MessageRow>),
    /// The model answered.
    Answered(String),
    /// What was asked for is done.
    Did,
    /// What was asked for failed.
    Failed(Error),
}

/// The same as a mathematical value.
#[verifier::ext_equal]
pub enum SummaryEventView {
    Counted(i64),
    Messages(Seq<MessageRowView>),
    Answered(Seq<char>),
    Did,
    Failed(ErrorView),
}

/// What the summary asks for next.
pub enum SummaryAction {
    /// Count one message of the chat.
    Count,
    /// Start the count anew.
    Reset,
    /// Find the chat's latest messages, at most so many, the latest first.
    Read { limit: i64 },
    /// Ask this model.
    Ask { model: String, messages: Vec<Message> },
    /// Embed the summary.
    Embed(String),
    /// Store the summary.
    Store(String),
    /// The summary is done.
    Done,
    /// The summary is given up.
    Fail(Error),
}

/// The same as a mathematical value.
#[verifier::ext_equal]
pub enum SummaryActionView {
    Count,
    Reset,
    Read { limit: i64 },
    Ask { model: Seq<char>, messages: Seq<MessageView> },
    Embed(Seq<char>),
    Store(Seq<char>),
    Done,
    Fail(ErrorView),
}

impl DeepView for SummaryRun {
    type V = SummaryRunView;

    open spec fn deep_view(&self) -> SummaryRunView {
        SummaryRunView {
            phase: self.phase,
            threshold: self.threshold,
            lookback: self.lookback,
            model: self.model@,
            text: self.text@,
        }
    }
}

impl DeepView for SummaryEvent {
    type V = SummaryEventView;

    open spec fn deep_view(&self) -> SummaryEventView {
        match self {
            SummaryEvent::Counted(n) => SummaryEventView::Counted(*n),
            SummaryEvent::Messages(m) => SummaryEventView::Messages(m.deep_view()),
            SummaryEvent::Answered(t) => SummaryEventView::Answered(t@),
            SummaryEvent::Did => SummaryEventView::Did,
            SummaryEvent::Failed(e) => SummaryEventView::Failed(e.deep_view()),
        }
    }
}

impl DeepView for SummaryAction {
    type V = SummaryActionView;

    open spec fn deep_view(&self) -> SummaryActionView {
        match self {
            SummaryAction::Count => SummaryActionView::Count,
            SummaryAction::Reset => SummaryActionView::Reset,
            SummaryAction::Read { limit } => SummaryActionView::Read { limit: *limit },
            SummaryAction::Ask { model, messages } => SummaryActionView::Ask {
                model: model@,
                messages: messages.deep_view(),
            },
            SummaryAction::Embed(t) => SummaryActionView::Embed(t@),
            SummaryAction::Store(t) => SummaryActionView::Store(t@),
            SummaryAction::Done => SummaryActionView::Done,
            SummaryAction::Fail(e) => SummaryActionView::Fail(e.deep_view()),
        }
    }
}

impl SummaryRunView {
    /// Goes to a phase.
    pub open spec fn to(self, phase: SummaryPhase) -> SummaryRunView {
        SummaryRunView { phase, ..self }
    }

    /// Ends.
    pub open spec fn end(self) -> (SummaryRunView, SummaryActionView) {
        (self.to(SummaryPhase::Ended), SummaryActionView::Done)
    }

    /// What an event leads to.
    pub open spec fn on(self, event: SummaryEventView) -> (SummaryRunView, SummaryActionView) {
        match (self.phase, event) {
            (_, SummaryEventView::Failed(e)) => (
                self.to(SummaryPhase::Ended),
                SummaryActionView::Fail(e),
            ),
            (SummaryPhase::Counting, SummaryEventView::Counted(n)) => if n < self.threshold {
                self.end()
            } else {
                (self.to(SummaryPhase::Resetting), SummaryActionView::Reset)
            },
            (SummaryPhase::Resetting, SummaryEventView::Did) => (
                self.to(SummaryPhase::Reading),
                SummaryActionView::Read { limit: self.lookback },
            ),
            (SummaryPhase::Reading, SummaryEventView::Messages(rows)) => if rows.len() == 0 {
                self.end()
            } else {
                (
                    self.to(SummaryPhase::Asking),
                    SummaryActionView::Ask {
                        model: self.model,
                        messages: two_messages(
                            SUMMARY_PROMPT@,
                            concat_all(summary_lines(rows)),
                        ),
                    },
                )
            },
            (SummaryPhase::Asking, SummaryEventView::Answered(t)) => if trim_seq(t).len() == 0 {
                self.end()
            } else {
                (
                    SummaryRunView { phase: SummaryPhase::Embedding, text: trim_seq(t), ..self },
                    SummaryActionView::Embed(trim_seq(t)),
                )
            },
            (SummaryPhase::Embedding, SummaryEventView::Did) => (
                self.to(SummaryPhase::Storing),
                SummaryActionView::Store(self.text),
            ),
            (_, _) => self.end(),
        }
    }
}

/// A summary before its first step.
pub open spec fn fresh_summary(threshold: u32, lookback: u32, model: Seq<char>) -> SummaryRunView {
    SummaryRunView {
        phase: if threshold == 0 {
            SummaryPhase::Ended
        } else {
            SummaryPhase::Counting
        },
        threshold: threshold as i64,
        lookback: lookback as i64,
        model,
        text: Seq::empty(),
    }
}

/// Counts a message of a chat and, every `threshold` of them, starts a summary of the
/// last `lookback` messages. A threshold of 0 switches it off.
pub fn maybe_summarize(threshold: u32, lookback: u32, model: &str) -> (r: (
    SummaryRun,
    SummaryAction,
))
    ensures
        r.0.deep_view() == fresh_summary(threshold, lookback, model@),
        r.1.deep_view() == (if threshold == 0 {
            SummaryActionView::Done
        } else {
            SummaryActionView::Count
        }),
{
    let run = SummaryRun {
        phase: if threshold == 0 {
            SummaryPhase::Ended
        } else {
            SummaryPhase::Counting
        },
        threshold: threshold as i64,
        lookback: lookback as i64,
        model: model.to_owned(),
        text: String::new(),
    };
    assert(run.deep_view() =~= fresh_summary(threshold, lookback, model@));
    if threshold == 0 {
        (run, SummaryAction::Done)
    } else {
        (run, SummaryAction::Count)
    }
}

impl SummaryRun {
    /// Takes in what happened and says what to do next. The first failure ends the
    /// summary.
    pub fn advance(&mut self, event: SummaryEvent) -> (r: SummaryAction)
        ensures
            (final(self).deep_view(), r.deep_view()) == old(self).deep_view().on(
                event.deep_view(),
            ),
    {
        let ghost v = self.deep_view();
        let ghost ev = event.deep_view();
        match (self.phase, event) {
            (_, SummaryEvent::Failed(e)) => {
                self.phase = SummaryPhase::Ended;
                assert(self.deep_view() =~= v.to(SummaryPhase::Ended));
                return SummaryAction::Fail(e);
            },
            (SummaryPhase::Counting, SummaryEvent::Counted(n)) => {
                if n >= self.threshold {
                    self.phase = SummaryPhase::Resetting;
                    assert(self.deep_view() =~= v.to(SummaryPhase::Resetting));
                    return SummaryAction::Reset;
                }
            },
            (SummaryPhase::Resetting, SummaryEvent::Did) => {
                self.phase = SummaryPhase::Reading;
                assert(self.deep_view() =~= v.to(SummaryPhase::Reading));
                return SummaryAction::Read { limit: self.lookback };
            },
            (SummaryPhase::Reading, SummaryEvent::Messages(rows)) => {
                if rows.len() > 0 {
                    let text = format_messages_for_summary(&rows);
                    let messages = system_and_user(SUMMARY_PROMPT, text);
                    self.phase = SummaryPhase::Asking;
                    assert(self.deep_view() =~= v.to(SummaryPhase::Asking));
                    return SummaryAction::Ask { model: self.model.clone(), messages };
                }
            },
            (SummaryPhase::Asking, SummaryEvent::Answered(t)) => {
                if !is_blank(t.as_str()) {
                    let text = trim(t.as_str());
                    self.text = text.clone();
                    self.phase = SummaryPhase::Embedding;
                    assert(self.deep_view() =~= v.on(ev).0);
                    return SummaryAction::Embed(text);
                }
            },
            (SummaryPhase::Embedding, SummaryEvent::Did) => {
                self.phase = SummaryPhase::Storing;
                assert(self.deep_view() =~= v.to(SummaryPhase::Storing));
                return SummaryAction::Store(self.text.clone());
            },
            (_, _) => {},
        }
        self.phase = SummaryPhase::Ended;
        assert(self.deep_view() =~= v.to(SummaryPhase::Ended));
        SummaryAction::Done
    }
}

/// The count is started anew before anything is read, so a failure later on costs one
/// summary and no more.
pub proof fn law_reset_comes_first(run: SummaryRunView, n: i64)
    requires
        run.phase is Counting,
        n >= run.threshold,
    ensures
        run.on(SummaryEventView::Counted(n)).1 == SummaryActionView::Reset,
        run.on(SummaryEventView::Counted(n)).0.on(SummaryEventView::Did).1
            == (SummaryActionView::Read { limit: run.lookback }),
{
}

/// A summary that is stored is never blank, and it is the one that was embedded.
pub proof fn law_stored_summary_is_the_embedded_one(run: SummaryRunView, answer: Seq<char>)
    requires
        run.phase is Asking,
    ensures
        ({
            let (next, action) = run.on(SummaryEventView::Answered(answer));
            action matches SummaryActionView::Embed(t) ==> t.len() > 0 && next.on(
                SummaryEventView::Did,
            ).1 == SummaryActionView::Store(t)
        }),
{
}

} // verus!
