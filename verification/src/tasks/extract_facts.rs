//! Extraction of facts about a user from the user's messages.
//!
//! Every so many messages of a user a model is asked for facts. A fact that is close
//! enough to one that is known is passed over; the others are stored.
use vstd::prelude::*;

use crate::encoding::{is_uuid, uuid_v4};
use crate::error::{joined, Error, ErrorView};
use crate::float_bits::FloatBits;
use crate::llm::client::{system_and_user, two_messages, Message, MessageView};
use crate::llm::prompts::facts::FACTS_PROMPT;
use crate::storage::qdrant::{
    facts_query, push_int, push_value_text, search_similar_user_facts, Payload, PayloadValueView,
    PayloadView, SearchHit, SearchHitView, SearchQuery, SearchQueryView,
};
use crate::tasks::score_events::{drop_suffix, in_block, lemma_in_block, without_suffix};
use crate::text::{
    all_space, concat_all, decimal, has_prefix, i64_to_string, is_blank,
    law_trim_takes_padding_off, law_trimmed_ends, lemma_concat_step, opt_or, strip_prefix,
    text_or, trim, trim_seq,
};

verus! {

/// How many tokens an extraction may take.
pub const FACTS_MAX_TOKENS: u32 = 500;
/// How many known facts a new one is held against.
pub const DEDUP_TOP_K: u32 = 3;

/// A fact as the model gave it.
pub struct ExtractedFact {
    pub fact: String,
    pub fact_type: Option<String>,
}

/// A fact as a mathematical value.
#[verifier::ext_equal]
pub struct ExtractedFactView {
    pub fact: Seq<char>,
    pub fact_type: Option<Seq<char>>,
}

/// A message of the user.
pub struct UserMessageRow {
    pub text: Option<String>,
    pub media_description: Option<String>,
}

/// A message of the user as a mathematical value.
#[verifier::ext_equal]
pub struct UserMessageRowView {
    pub text: Option<Seq<char>>,
    pub media_description: Option<Seq<char>>,
}

impl DeepView for ExtractedFact {
    type V = ExtractedFactView;

    open spec fn deep_view(&self) -> ExtractedFactView {
        ExtractedFactView { fact: self.fact@, fact_type: self.fact_type.deep_view() }
    }
}

impl DeepView for UserMessageRow {
    type V = UserMessageRowView;

    open spec fn deep_view(&self) -> UserMessageRowView {
        UserMessageRowView {
            text: self.text.deep_view(),
            media_description: self.media_description.deep_view(),
        }
    }
}

/// The line of a message; nothing where there is neither text nor description.
pub open spec fn user_line(m: UserMessageRowView) -> Seq<char> {
    let text = text_or(m.text, ""@);
    match m.media_description {
        Some(d) => text + " ["@ + d + "]\n"@,
        None => if text.len() == 0 {
            ""@
        } else {
            text + "\n"@
        },
    }
}

/// The lines of the user's messages, the oldest first, where `rows` has the latest
/// first.
pub open spec fn user_lines(rows: Seq<UserMessageRowView>) -> Seq<Seq<char>> {
    Seq::new(rows.len(), |i: int| user_line(rows[rows.len() - 1 - i]))
}

/// What the model is shown of a user, where `rows` has the latest message first.
pub open spec fn user_messages(username: Seq<char>, rows: Seq<UserMessageRowView>) -> Seq<char> {
    "Сообщения пользователя @"@ + username + ":\n\n"@ + concat_all(user_lines(rows))
}

/// What the model is shown of a user: the messages, the oldest first; `rows` has the
/// latest first.
pub fn format_user_messages(username: &str, rows: &Vec<UserMessageRow>) -> (r: String)
    ensures
        r@ == user_messages(username@, rows.deep_view()),
{
    let mut s = "Сообщения пользователя @".to_owned();
    s.append(username);
    s.append(":\n\n");
    let ghost head = s@;
    let ghost parts = user_lines(rows.deep_view());
    let n = rows.len();
    assert(parts.take(0) =~= Seq::empty());
    assert(head + concat_all(parts.take(0)) =~= head);
    for i in 0..n
        invariant
            n == rows@.len(),
            parts == user_lines(rows.deep_view()),
            s@ == head + concat_all(parts.take(i as int)),
    {
        let m = &rows[n - 1 - i];
        let text = opt_or(&m.text, "");
        let mut line = "".to_owned();
        if let Some(d) = &m.media_description {
            line = text.to_owned();
            line.append(" [");
            line.append(d.as_str());
            line.append("]\n");
        } else if !text.is_empty() {
            line = joined(text, "\n");
        }
        proof {
            assert(rows.deep_view()[n - 1 - i] == rows@[n - 1 - i].deep_view());
            assert(line@ == parts[i as int]);
            lemma_concat_step(parts, i as int);
        }
        s.append(line.as_str());
        assert(s@ =~= head + (concat_all(parts.take(i as int)) + line@));
    }
    assert(parts.take(n as int) =~= parts);
    s
}

/// `s` without the fence of a code block.
pub open spec fn unfenced_facts(s: Seq<char>) -> Seq<char> {
    let t = trim_seq(s);
    if has_prefix(t, "```json"@) {
        without_suffix(trim_seq(t.skip("```json"@.len() as int)), "```"@)
    } else if has_prefix(t, "```"@) {
        without_suffix(trim_seq(t.skip("```"@.len() as int)), "```"@)
    } else {
        t
    }
}

/// Takes the fence of a code block off an answer.
pub fn strip_code_block(s: &str) -> (r: String)
    ensures
        r@ == unfenced_facts(s@),
{
    let t = trim(s);
    if let Some(rest) = strip_prefix(t.as_str(), "```json") {
        return drop_suffix(trim(rest.as_str()), "```");
    }
    if let Some(rest) = strip_prefix(t.as_str(), "```") {
        return drop_suffix(trim(rest.as_str()), "```");
    }
    t
}

/// A text without white space at its ends, put in a code block with or without the name
/// of the language, comes back as it was but for white space behind it, whatever white
/// space stands around the text and around the block.
pub proof fn law_fenced_facts_come_back(
    before: Seq<char>,
    opening: Seq<char>,
    lead: Seq<char>,
    b: Seq<char>,
    tail: Seq<char>,
    after: Seq<char>,
)
    requires
        trim_seq(b) == b,
        all_space(before),
        all_space(after),
        all_space(lead),
        all_space(tail),
        lead.len() > 0,
        opening == "```json"@ || opening == "```"@,
    ensures
        unfenced_facts(in_block(before, opening, lead, b, tail, after)) == (if b.len() > 0 {
            b + tail
        } else {
            Seq::empty()
        }),
        trim_seq(unfenced_facts(in_block(before, opening, lead, b, tail, after))) == b,
{
    reveal_strlit("```json");
    reveal_strlit("```");
    lemma_in_block(before, opening, lead, b, tail, after);
    law_trimmed_ends(b);
    let none = Seq::<char>::empty();
    if b.len() > 0 {
        let core = b + tail + "```"@;
        assert(core[0] == b[0] && core.last() == '`');
        assert(trim_seq(core) == core);
        law_trim_takes_padding_off(lead, core, none);
        assert(lead + core + none =~= lead + b + tail + "```"@);
        assert(core.skip(core.len() - 3) =~= "```"@);
        assert(core.take(core.len() - 3) =~= b + tail);
    } else {
        assert(trim_seq("```"@) == "```"@);
        law_trim_takes_padding_off(lead + tail, "```"@, none);
        assert(lead + tail + "```"@ + none =~= lead + b + tail + "```"@);
        assert("```"@.skip(0) =~= "```"@);
        assert("```"@.take(0) =~= none);
    }
    law_trim_takes_padding_off(none, b, tail);
    assert(none + b + tail =~= b + tail);
    assert(b.len() == 0 ==> b =~= none);
}

/// A text without a fence and without white space at its ends comes back as it was,
/// whatever white space stands around it.
pub proof fn law_bare_facts_come_back(before: Seq<char>, b: Seq<char>, after: Seq<char>)
    requires
        trim_seq(b) == b,
        all_space(before),
        all_space(after),
        !has_prefix(b, "```"@),
    ensures
        unfenced_facts(before + b + after) == b,
{
    reveal_strlit("```json");
    reveal_strlit("```");
    law_trim_takes_padding_off(before, b, after);
    if has_prefix(b, "```json"@) {
        assert(b.take(3) =~= b.take(7).take(3));
        assert("```json"@.take(3) =~= "```"@);
    }
}

/// One of the hits is closer than `threshold`.
pub open spec fn known_already(hits: Seq<SearchHitView>, threshold: FloatBits) -> bool {
    exists|i: int| 0 <= i < hits.len() && (#[trigger] hits[i]).score.above(threshold)
}

/// Whether one of the hits is closer than `threshold`.
pub fn is_duplicate(hits: &Vec<SearchHit>, threshold: FloatBits) -> (r: bool)
    ensures
        r == known_already(hits.deep_view(), threshold),
{
    for i in 0..hits.len()
        invariant
            forall|k: int|
                0 <= k < i ==> !(#[trigger] hits.deep_view()[k]).score.above(threshold),
    {
        assert(hits.deep_view()[i as int] == hits@[i as int].deep_view());
        if hits[i].score.gt(threshold) {
            return true;
        }
    }
    false
}

/// The payload of a fact's point, but for the row.
pub open spec fn fact_payload(chat_id: i64, user_id: i64, fact_type: Seq<char>) -> PayloadView {
    seq![
        ("user_id"@, PayloadValueView::Int(user_id)),
        ("chat_id"@, PayloadValueView::Int(chat_id)),
        ("fact_type"@, PayloadValueView::Text(fact_type)),
    ]
}

/// A new fact's point: a fresh id, and the payload but for the row.
pub fn fact_point(chat_id: i64, user_id: i64, fact_type: &str) -> (r: (String, Payload))
    ensures
        is_uuid(r.0@, '4'),
        r.1.deep_view() == fact_payload(chat_id, user_id, fact_type@),
{
    let mut p: Payload = Vec::new();
    assert(p.deep_view() =~= Seq::empty());
    push_int(&mut p, "user_id", user_id);
    push_int(&mut p, "chat_id", chat_id);
    push_value_text(&mut p, "fact_type", fact_type);
    assert(p.deep_view() =~= fact_payload(chat_id, user_id, fact_type@));
    (uuid_v4(), p)
}

/// What the extraction waits for.
#[derive(Clone, Copy, Debug, PartialEq, Eq, Structural)]
pub enum FactsPhase {
    /// The count of the user's messages.
    Counting,
    /// The count being started anew.
    Resetting,
    /// The user's messages.
    Reading,
    /// The user's name.
    Naming,
    /// The model's answer.
    Asking,
    /// The answer, read.
    Parsing,
    /// The answer without its fence, read.
    Reparsing,
    /// The vector of a fact.
    Embedding,
    /// The known facts close to it.
    Searching,
    /// The fact being stored.
    Storing,
    /// Nothing any more.
    Ended,
}

/// An extraction between two of its steps.
pub struct FactsRun {
    pub phase: FactsPhase,
    pub chat_id: i64,
    pub user_id: i64,
    pub threshold: i64,
    pub lookback: i64,
    pub model: String,
    pub dedup: FloatBits,
    pub rows: Vec<UserMessageRow>,
    pub answer: String,
    pub facts: Vec<ExtractedFact>,
    pub next: usize,
}

/// The same as a mathematical value.
#[verifier::ext_equal]
pub struct FactsRunView {
    pub phase: FactsPhase,
    pub chat_id: i64,
    pub user_id: i64,
    pub threshold: i64,
    pub lookback: i64,
    pub model: Seq<char>,
    pub dedup: FloatBits,
    pub rows: Seq<UserMessageRowView>,
    pub answer: Seq<char>,
    pub facts: Seq<ExtractedFactView>,
    pub next: int,
}

/// What happened since the last step.
pub enum FactsEvent {
    /// The count is now this.
    Counted(i64),
    /// The user's messages, the latest first.
    Messages(Vec<UserMessageRow>),
    /// The user's name, where it is known.
    Name(Option<String>),
    /// The model answered.
    Answered(String),
    /// The answer was read.
    Parsed(Vec<ExtractedFact>),
    /// The answer could not be read.
    Unreadable,
    /// The search gave these hits.
    Hits(Vec<SearchHit>),
    /// What was asked for is done.
    Did,
    /// What was asked for failed.
    Failed(Error),
}

/// The same as a mathematical value.
#[verifier::ext_equal]
pub enum FactsEventView {
    Counted(i64),
    Messages(Seq<UserMessageRowView>),
    Name(Option<Seq<char>>),
    Answered(Seq<char>),
    Parsed(Seq<ExtractedFactView>),
    Unreadable,
    Hits(Seq<SearchHitView>),
    Did,
    Failed(ErrorView),
}

/// What the extraction asks for next.
pub enum FactsAction {
    /// Count one message of the user.
    Count,
    /// Start the count anew.
    Reset,
    /// Find the user's latest messages, at most so many, the latest first.
    Read { limit: i64 },
    /// Look up the user's name.
    Name,
    /// Ask this model.
    Ask { model: String, messages: Vec<Message> },
    /// Read this answer.
    Parse(String),
    /// Embed this fact.
    Embed(String),
    /// Search for facts close to the one that was embedded.
    Search(SearchQuery),
    /// Store the fact.
    Store { fact: String, fact_type: String },
    /// The extraction is done.
    Done,
    /// The extraction is given up.
    Fail(Error),
}

/// The same as a mathematical value.
#[verifier::ext_equal]
pub enum FactsActionView {
    Count,
    Reset,
    Read { limit: i64 },
    Name,
    Ask { model: Seq<char>, messages: Seq<MessageView> },
    Parse(Seq<char>),
    Embed(Seq<char>),
    Search(SearchQueryView),
    Store { fact: Seq<char>, fact_type: Seq<char> },
    Done,
    Fail(ErrorView),
}

impl DeepView for FactsRun {
    type V = FactsRunView;

    open spec fn deep_view(&self) -> FactsRunView {
        FactsRunView {
            phase: self.phase,
            chat_id: self.chat_id,
            user_id: self.user_id,
            threshold: self.threshold,
            lookback: self.lookback,
            model: self.model@,
            dedup: self.dedup,
            rows: self.rows.deep_view(),
            answer: self.answer@,
            facts: self.facts.deep_view(),
            next: self.next as int,
        }
    }
}

impl DeepView for FactsEvent {
    type V = FactsEventView;

    open spec fn deep_view(&self) -> FactsEventView {
        match self {
            FactsEvent::Counted(n) => FactsEventView::Counted(*n),
            FactsEvent::Messages(m) => FactsEventView::Messages(m.deep_view()),
            FactsEvent::Name(n) => FactsEventView::Name(n.deep_view()),
            FactsEvent::Answered(t) => FactsEventView::Answered(t@),
            FactsEvent::Parsed(f) => FactsEventView::Parsed(f.deep_view()),
            FactsEvent::Unreadable => FactsEventView::Unreadable,
            FactsEvent::Hits(h) => FactsEventView::Hits(h.deep_view()),
            FactsEvent::Did => FactsEventView::Did,
            FactsEvent::Failed(e) => FactsEventView::Failed(e.deep_view()),
        }
    }
}

impl DeepView for FactsAction {
    type V = FactsActionView;

    open spec fn deep_view(&self) -> FactsActionView {
        match self {
            FactsAction::Count => FactsActionView::Count,
            FactsAction::Reset => FactsActionView::Reset,
            FactsAction::Read { limit } => FactsActionView::Read { limit: *limit },
            FactsAction::Name => FactsActionView::Name,
            FactsAction::Ask { model, messages } => FactsActionView::Ask {
                model: model@,
                messages: messages.deep_view(),
            },
            FactsAction::Parse(t) => FactsActionView::Parse(t@),
            FactsAction::Embed(t) => FactsActionView::Embed(t@),
            FactsAction::Search(q) => FactsActionView::Search(q.deep_view()),
            FactsAction::Store { fact, fact_type } => FactsActionView::Store {
                fact: fact@,
                fact_type: fact_type@,
            },
            FactsAction::Done => FactsActionView::Done,
            FactsAction::Fail(e) => FactsActionView::Fail(e.deep_view()),
        }
    }
}

/// The first fact from `from` on that is not blank.
pub open spec fn next_fact(facts: Seq<ExtractedFactView>, from: int) -> int
    decreases facts.len() - from,
{
    if from >= facts.len() || trim_seq(facts[from].fact).len() > 0 {
        from
    } else {
        next_fact(facts, from + 1)
    }
}

impl FactsRunView {
    /// While a fact is worked on, it is one of the facts.
    pub open spec fn wf(self) -> bool {
        (self.phase is Embedding || self.phase is Searching || self.phase is Storing) ==> 0
            <= self.next < self.facts.len()
    }

    /// Goes to a phase.
    pub open spec fn to(self, phase: FactsPhase) -> FactsRunView {
        FactsRunView { phase, ..self }
    }

    /// Ends.
    pub open spec fn end(self) -> (FactsRunView, FactsActionView) {
        (self.to(FactsPhase::Ended), FactsActionView::Done)
    }

    /// Goes on with the facts from `from` on.
    pub open spec fn resume(self, from: int) -> (FactsRunView, FactsActionView) {
        let i = next_fact(self.facts, from);
        if i >= self.facts.len() {
            self.end()
        } else {
            (
                FactsRunView { phase: FactsPhase::Embedding, next: i, ..self },
                FactsActionView::Embed(self.facts[i].fact),
            )
        }
    }

    /// The name under which the model is shown the user.
    pub open spec fn shown_user(self, name: Option<Seq<char>>) -> Seq<char> {
        match name {
            Some(n) => n,
            None => "uid:"@ + decimal(self.user_id as int),
        }
    }

    /// Stores the fact at hand, where none of the hits is too close.
    pub open spec fn judge(self, hits: Seq<SearchHitView>) -> (FactsRunView, FactsActionView) {
        if known_already(hits, self.dedup) {
            self.resume(self.next + 1)
        } else {
            (
                self.to(FactsPhase::Storing),
                FactsActionView::Store {
                    fact: self.facts[self.next].fact,
                    fact_type: text_or(self.facts[self.next].fact_type, "other"@),
                },
            )
        }
    }

    /// What an event leads to.
    pub open spec fn on(self, event: FactsEventView) -> (FactsRunView, FactsActionView) {
        match (self.phase, event) {
            (FactsPhase::Embedding, FactsEventView::Failed(_)) => self.resume(self.next + 1),
            (FactsPhase::Searching, FactsEventView::Hits(h)) => self.judge(h),
            (FactsPhase::Searching, _) => self.judge(Seq::empty()),
            (_, FactsEventView::Failed(e)) => (
                self.to(FactsPhase::Ended),
                FactsActionView::Fail(e),
            ),
            (FactsPhase::Counting, FactsEventView::Counted(n)) => if n < self.threshold {
                self.end()
            } else {
                (self.to(FactsPhase::Resetting), FactsActionView::Reset)
            },
            (FactsPhase::Resetting, FactsEventView::Did) => (
                self.to(FactsPhase::Reading),
                FactsActionView::Read { limit: self.lookback },
            ),
            (FactsPhase::Reading, FactsEventView::Messages(rows)) => if rows.len() == 0 {
                self.end()
            } else {
                (
                    FactsRunView { phase: FactsPhase::Naming, rows, ..self },
                    FactsActionView::Name,
                )
            },
            (FactsPhase::Naming, FactsEventView::Name(name)) => (
                self.to(FactsPhase::Asking),
                FactsActionView::Ask {
                    model: self.model,
                    messages: two_messages(
                        FACTS_PROMPT@,
                        user_messages(self.shown_user(name), self.rows),
                    ),
                },
            ),
            (FactsPhase::Asking, FactsEventView::Answered(t)) => (
                FactsRunView { phase: FactsPhase::Parsing, answer: trim_seq(t), ..self },
                FactsActionView::Parse(trim_seq(t)),
            ),
            (FactsPhase::Parsing, FactsEventView::Parsed(facts)) => FactsRunView {
                facts,
                ..self
            }.resume(0),
            (FactsPhase::Parsing, FactsEventView::Unreadable) => (
                self.to(FactsPhase::Reparsing),
                FactsActionView::Parse(unfenced_facts(self.answer)),
            ),
            (FactsPhase::Reparsing, FactsEventView::Parsed(facts)) => FactsRunView {
                facts,
                ..self
            }.resume(0),
            (FactsPhase::Embedding, FactsEventView::Did) => (
                self.to(FactsPhase::Searching),
                FactsActionView::Search(facts_query(self.chat_id, self.user_id, DEDUP_TOP_K)),
            ),
            (FactsPhase::Storing, FactsEventView::Did) => self.resume(self.next + 1),
            (_, _) => self.end(),
        }
    }
}

/// An extraction before its first step.
pub open spec fn fresh_facts(
    chat_id: i64,
    user_id: i64,
    threshold: u32,
    lookback: u32,
    model: Seq<char>,
    dedup: FloatBits,
) -> FactsRunView {
    FactsRunView {
        phase: if threshold == 0 {
            FactsPhase::Ended
        } else {
            FactsPhase::Counting
        },
        chat_id,
        user_id,
        threshold: threshold as i64,
        lookback: lookback as i64,
        model,
        dedup,
        rows: Seq::empty(),
        answer: Seq::empty(),
        facts: Seq::empty(),
        next: 0,
    }
}

/// Counts a message of a user and, every `threshold` of them, starts an extraction
/// from the user's last `lookback` messages. A threshold of 0 switches it off.
pub fn maybe_extract_facts(
    chat_id: i64,
    user_id: i64,
    threshold: u32,
    lookback: u32,
    model: &str,
    dedup: FloatBits,
) -> (r: (FactsRun, FactsAction))
    ensures
        r.0.deep_view() == fresh_facts(chat_id, user_id, threshold, lookback, model@, dedup),
        r.0.deep_view().wf(),
        r.1.deep_view() == (if threshold == 0 {
            FactsActionView::Done
        } else {
            FactsActionView::Count
        }),
{
    let run = FactsRun {
        phase: if threshold == 0 {
            FactsPhase::Ended
        } else {
            FactsPhase::Counting
        },
        chat_id,
        user_id,
        threshold: threshold as i64,
        lookback: lookback as i64,
        model: model.to_owned(),
        dedup,
        rows: Vec::new(),
        answer: String::new(),
        facts: Vec::new(),
        next: 0,
    };
    assert(run.deep_view() =~= fresh_facts(chat_id, user_id, threshold, lookback, model@, dedup));
    if threshold == 0 {
        (run, FactsAction::Done)
    } else {
        (run, FactsAction::Count)
    }
}

impl FactsRun {
    fn end(&mut self) -> (r: FactsAction)
        ensures
            (final(self).deep_view(), r.deep_view()) == old(self).deep_view().end(),
    {
        self.phase = FactsPhase::Ended;
        assert(self.deep_view() =~= old(self).deep_view().end().0);
        FactsAction::Done
    }

    fn resume(&mut self, from: usize) -> (r: FactsAction)
        requires
            from <= old(self).facts.len(),
        ensures
            (final(self).deep_view(), r.deep_view()) == old(self).deep_view().resume(from as int),
            final(self).deep_view().wf(),
    {
        let mut i = from;
        while i < self.facts.len() && is_blank(self.facts[i].fact.as_str())
            invariant
                *self == *old(self),
                i <= self.facts.len(),
                next_fact(self.deep_view().facts, from as int) == next_fact(
                    self.deep_view().facts,
                    i as int,
                ),
            decreases self.facts.len() - i,
        {
            assert(self.deep_view().facts[i as int] == self.facts@[i as int].deep_view());
            i = i + 1;
        }
        if i >= self.facts.len() {
            return self.end();
        }
        assert(self.deep_view().facts[i as int] == self.facts@[i as int].deep_view());
        let text = self.facts[i].fact.clone();
        self.next = i;
        self.phase = FactsPhase::Embedding;
        assert(self.deep_view() =~= old(self).deep_view().resume(from as int).0);
        FactsAction::Embed(text)
    }

    fn judge(&mut self, hits: &Vec<SearchHit>) -> (r: FactsAction)
        requires
            old(self).next < old(self).facts.len(),
        ensures
            (final(self).deep_view(), r.deep_view()) == old(self).deep_view().judge(
                hits.deep_view(),
            ),
            final(self).deep_view().wf(),
    {
        if is_duplicate(hits, self.dedup) {
            return self.resume(self.next + 1);
        }
        assert(self.deep_view().facts[self.next as int]
            == self.facts@[self.next as int].deep_view());
        self.phase = FactsPhase::Storing;
        assert(self.deep_view() =~= old(self).deep_view().to(FactsPhase::Storing));
        let f = &self.facts[self.next];
        FactsAction::Store {
            fact: f.fact.clone(),
            fact_type: opt_or(&f.fact_type, "other").to_owned(),
        }
    }

    /// Takes in what happened and says what to do next. A fact that cannot be embedded
    /// is passed over; a search that fails counts as one without hits; any other
    /// failure ends the extraction.
    pub fn advance(&mut self, event: FactsEvent) -> (r: FactsAction)
        requires
            old(self).deep_view().wf(),
        ensures
            (final(self).deep_view(), r.deep_view()) == old(self).deep_view().on(
                event.deep_view(),
            ),
            final(self).deep_view().wf(),
    {
        let ghost v = self.deep_view();
        let ghost ev = event.deep_view();
        assert((v.phase is Embedding || v.phase is Searching || v.phase is Storing) ==> self.next
            < self.facts.len());
        match (self.phase, event) {
            (FactsPhase::Embedding, FactsEvent::Failed(_)) => self.resume(self.next + 1),
            (FactsPhase::Searching, FactsEvent::Hits(h)) => self.judge(&h),
            (FactsPhase::Searching, _) => {
                let none: Vec<SearchHit> = Vec::new();
                assert(none.deep_view() =~= Seq::<SearchHitView>::empty());
                self.judge(&none)
            },
            (_, FactsEvent::Failed(e)) => {
                self.phase = FactsPhase::Ended;
                assert(self.deep_view() =~= v.to(FactsPhase::Ended));
                FactsAction::Fail(e)
            },
            (FactsPhase::Counting, FactsEvent::Counted(n)) => {
                if n < self.threshold {
                    return self.end();
                }
                self.phase = FactsPhase::Resetting;
                assert(self.deep_view() =~= v.to(FactsPhase::Resetting));
                FactsAction::Reset
            },
            (FactsPhase::Resetting, FactsEvent::Did) => {
                self.phase = FactsPhase::Reading;
                assert(self.deep_view() =~= v.to(FactsPhase::Reading));
                FactsAction::Read { limit: self.lookback }
            },
            (FactsPhase::Reading, FactsEvent::Messages(rows)) => {
                if rows.len() == 0 {
                    return self.end();
                }
                self.rows = rows;
                self.phase = FactsPhase::Naming;
                assert(self.deep_view() =~= v.on(ev).0);
                FactsAction::Name
            },
            (FactsPhase::Naming, FactsEvent::Name(name)) => {
                let shown = match name {
                    Some(n) => n,
                    None => joined("uid:", i64_to_string(self.user_id).as_str()),
                };
                let text = format_user_messages(shown.as_str(), &self.rows);
                let messages = system_and_user(FACTS_PROMPT, text);
                self.phase = FactsPhase::Asking;
                assert(self.deep_view() =~= v.to(FactsPhase::Asking));
                FactsAction::Ask { model: self.model.clone(), messages }
            },
            (FactsPhase::Asking, FactsEvent::Answered(t)) => {
                let answer = trim(t.as_str());
                self.answer = answer.clone();
                self.phase = FactsPhase::Parsing;
                assert(self.deep_view() =~= v.on(ev).0);
                FactsAction::Parse(answer)
            },
            (FactsPhase::Parsing, FactsEvent::Parsed(facts)) => {
                self.facts = facts;
                self.resume(0)
            },
            (FactsPhase::Parsing, FactsEvent::Unreadable) => {
                let bare = strip_code_block(self.answer.as_str());
                self.phase = FactsPhase::Reparsing;
                assert(self.deep_view() =~= v.to(FactsPhase::Reparsing));
                FactsAction::Parse(bare)
            },
            (FactsPhase::Reparsing, FactsEvent::Parsed(facts)) => {
                self.facts = facts;
                self.resume(0)
            },
            (FactsPhase::Embedding, FactsEvent::Did) => {
                self.phase = FactsPhase::Searching;
                assert(self.deep_view() =~= v.to(FactsPhase::Searching));
                FactsAction::Search(
                    search_similar_user_facts(self.chat_id, self.user_id, DEDUP_TOP_K),
                )
            },
            (FactsPhase::Storing, FactsEvent::Did) => self.resume(self.next + 1),
            (_, _) => self.end(),
        }
    }
}

/// A fact is stored only where nothing close enough is known, and never a blank one.
pub proof fn law_only_new_facts_are_stored(run: FactsRunView, hits: Seq<SearchHitView>)
    requires
        run.wf(),
        run.phase is Searching,
    ensures
        run.on(FactsEventView::Hits(hits)).1 is Store <==> !known_already(hits, run.dedup),
        run.on(FactsEventView::Hits(hits)).1 matches FactsActionView::Store { fact, .. } ==> fact
            == run.facts[run.next].fact,
{
}

/// The fact that is embedded next is never blank.
pub proof fn law_blank_facts_are_passed_over(run: FactsRunView, from: int)
    requires
        0 <= from <= run.facts.len(),
    ensures
        run.resume(from).1 matches FactsActionView::Embed(t) ==> trim_seq(t).len() > 0,
    decreases run.facts.len() - from,
{
    if from < run.facts.len() && trim_seq(run.facts[from].fact).len() == 0 {
        law_blank_facts_are_passed_over(run, from + 1);
    }
}

/// The count is started anew before anything is read, so a failure later on costs one
/// extraction and no more.
pub proof fn law_reset_comes_first(run: FactsRunView, n: i64)
    requires
        run.phase is Counting,
        n >= run.threshold,
    ensures
        run.on(FactsEventView::Counted(n)).1 == FactsActionView::Reset,
        run.on(FactsEventView::Counted(n)).0.on(FactsEventView::Did).1
            == (FactsActionView::Read { limit: run.lookback }),
{
}

} // verus!
