//! Answering a message: what is gathered, what the model is shown, what is sent.
use vstd::prelude::*;

use crate::bot::handlers::{current_line, format_current_msg, format_window_msg, window_line};
use crate::bot::incoming::{body_of, carries_media, detect_media, extract_text, Incoming};
use crate::error::{Error, ErrorView};
use crate::llm::client::{push_message, text_message, Message, MessageView};
use crate::llm::prompt_builder::{
    layer, list_block, list_text, people_block, people_text, push_layer, People, PeopleView,
};
use crate::memory::working::{WorkingMessage, WorkingMessageView};
use crate::text::{is_blank, text_or, trim, trim_seq};

verus! {

/// Whose media are looked at before an answer.
#[derive(Clone, Copy, Debug, PartialEq, Eq, Structural)]
pub enum Target {
    Nothing,
    /// Those of the message itself.
    Current,
    /// Those of the message that it answers.
    RepliedTo,
}

/// Whose media are looked at before an answer: those of the message, or else those of
/// the message that it answers.
pub open spec fn target_of(msg: Incoming) -> Target {
    if carries_media(msg.media) {
        Target::Current
    } else if msg.reply_to matches Some(r) && carries_media(r.media) {
        Target::RepliedTo
    } else {
        Target::Nothing
    }
}

/// Whose media are looked at before an answer.
pub fn media_target(msg: &Incoming) -> (r: Target)
    ensures
        r == target_of(*msg),
{
    if detect_media(&msg.media) {
        return Target::Current;
    }
    if let Some(replied) = &msg.reply_to {
        if detect_media(&replied.media) {
            return Target::RepliedTo;
        }
    }
    Target::Nothing
}

/// A user message for each window entry.
pub open spec fn window_messages(window: Seq<WorkingMessageView>) -> Seq<MessageView> {
    Seq::new(window.len(), |i: int| text_message("user"@, window_line(window[i])))
}

/// The message to be answered, with what its media show.
pub open spec fn question(line: Seq<char>, desc: Option<Seq<char>>) -> Seq<char> {
    match desc {
        Some(d) => line + " [Изображение/Голосовое: "@ + d + "]"@,
        None => line,
    }
}

/// What the model is shown: the system prompt, what is remembered, the window and the
/// message to be answered.
pub open spec fn reply_messages(
    system: Seq<char>,
    summaries: Seq<Seq<char>>,
    people: PeopleView,
    moments: Seq<Seq<char>>,
    window: Seq<WorkingMessageView>,
    line: Seq<char>,
    desc: Option<Seq<char>>,
) -> Seq<MessageView> {
    (seq![text_message("system"@, system)] + layer(
        summaries.len() > 0,
        list_text("[Релевантный контекст из прошлого чата]:\n"@, summaries),
    ) + layer(
        people.len() > 0,
        people_text("[Известные факты о участниках]:\n"@, people),
    ) + layer(
        moments.len() > 0,
        list_text("[Релевантные моменты из этого чата]:\n"@, moments),
    ) + window_messages(window)).push(text_message("user"@, question(line, desc)))
}

/// Puts together what the model is shown.
pub fn build_messages(
    system: &str,
    summaries: &Vec<String>,
    people: &People,
    moments: &Vec<String>,
    window: &Vec<WorkingMessage>,
    line: &str,
    desc: &Option<String>,
) -> (r: Vec<Message>)
    ensures
        r.deep_view() == reply_messages(
            system@,
            summaries.deep_view(),
            people.deep_view(),
            moments.deep_view(),
            window.deep_view(),
            line@,
            desc.deep_view(),
        ),
{
    let mut v: Vec<Message> = Vec::new();
    v.push(Message::system(system.to_owned()));
    assert(v.deep_view() =~= seq![text_message("system"@, system@)]);
    let text = list_block("[Релевантный контекст из прошлого чата]:\n", summaries);
    push_layer(&mut v, summaries.len() > 0, text);
    let text = people_block("[Известные факты о участниках]:\n", people);
    push_layer(&mut v, people.len() > 0, text);
    let text = list_block("[Релевантные моменты из этого чата]:\n", moments);
    push_layer(&mut v, moments.len() > 0, text);
    let ghost head = v.deep_view();
    let ghost tail = window_messages(window.deep_view());
    assert(head + tail.take(0) =~= head);
    for i in 0..window.len()
        invariant
            tail == window_messages(window.deep_view()),
            v.deep_view() == head + tail.take(i as int),
    {
        let shown = format_window_msg(&window[i]);
        assert(window.deep_view()[i as int] == window@[i as int].deep_view());
        push_message(&mut v, Message::user(shown));
        assert(v.deep_view() =~= head + tail.take(i + 1));
    }
    assert(tail.take(window@.len() as int) =~= tail);
    let mut last = line.to_owned();
    if let Some(d) = desc {
        last.append(" [Изображение/Голосовое: ");
        last.append(d.as_str());
        last.append("]");
    }
    push_message(&mut v, Message::user(last));
    v
}

/// What answering waits for.
#[derive(Clone, Copy, Debug, PartialEq, Eq, Structural)]
pub enum ReplyPhase {
    /// The window.
    Window,
    /// A description of media.
    Perceiving,
    /// The vector of the message.
    Embedding,
    /// Summaries.
    Summaries,
    /// Facts about people.
    People,
    /// Past moments.
    Moments,
    /// The model's answer.
    Asking,
    /// The answer being sent.
    Sending,
    /// The answer being kept.
    Persisting,
    /// Nothing any more.
    Ended,
}

/// Answering between two of its steps.
pub struct ReplyRun {
    pub phase: ReplyPhase,
    pub system: String,
    pub model: String,
    pub user_text: String,
    pub line: String,
    pub target: Target,
    pub window: Vec<WorkingMessage>,
    pub desc: Option<String>,
    pub summaries: Vec<String>,
    pub people: People,
}

/// The same as a mathematical value.
#[verifier::ext_equal]
pub struct ReplyRunView {
    pub phase: ReplyPhase,
    pub system: Seq<char>,
    pub model: Seq<char>,
    pub user_text: Seq<char>,
    pub line: Seq<char>,
    pub target: Target,
    pub window: Seq<WorkingMessageView>,
    pub desc: Option<Seq<char>>,
    pub summaries: Seq<Seq<char>>,
    pub people: PeopleView,
}

/// What happened since the last step.
pub enum ReplyEvent {
    /// The window.
    Window(Vec<WorkingMessage>),
    /// What the media show, or nothing.
    Described(Option<String>),
    /// The summaries that are close.
    Summaries(Vec<String>),
    /// What is known of the people in the window.
    People(People),
    /// The past moments that are close.
    Moments(Vec<String>),
    /// The model answered.
    Answered(String),
    /// What was asked for is done.
    Did,
    /// What was asked for failed.
    Failed(Error),
}

/// The same as a mathematical value.
#[verifier::ext_equal]
pub enum ReplyEventView {
    Window(Seq<WorkingMessageView>),
    Described(Option<Seq<char>>),
    Summaries(Seq<Seq<char>>),
    People(PeopleView),
    Moments(Seq<Seq<char>>),
    Answered(Seq<char>),
    Did,
    Failed(ErrorView),
}

/// What answering asks for next.
pub enum ReplyAction {
    /// Read the chat's window.
    ReadWindow,
    /// Describe the media of the target.
    Perceive(Target),
    /// Embed this text; where that fails, search with the zero vector.
    Embed(String),
    /// Find summaries close to the vector.
    FindSummaries,
    /// Find facts about the people in the window.
    FindPeople,
    /// Find past moments close to the vector.
    FindMoments,
    /// Ask this model.
    Ask { model: String, messages: Vec<Message> },
    /// Send this text as an answer to the message.
    Send(String),
    /// Keep the answer that was sent.
    Persist,
    /// The message is answered, or there is nothing to say.
    Done,
    /// Answering failed.
    Fail(Error),
}

/// The same as a mathematical value.
#[verifier::ext_equal]
pub enum ReplyActionView {
    ReadWindow,
    Perceive(Target),
    Embed(Seq<char>),
    FindSummaries,
    FindPeople,
    FindMoments,
    Ask { model: Seq<char>, messages: Seq<MessageView> },
    Send(Seq<char>),
    Persist,
    Done,
    Fail(ErrorView),
}

impl DeepView for ReplyRun {
    type V = ReplyRunView;

    open spec fn deep_view(&self) -> ReplyRunView {
        ReplyRunView {
            phase: self.phase,
            system: self.system@,
            model: self.model@,
            user_text: self.user_text@,
            line: self.line@,
            target: self.target,
            window: self.window.deep_view(),
            desc: self.desc.deep_view(),
            summaries: self.summaries.deep_view(),
            people: self.people.deep_view(),
        }
    }
}

impl DeepView for ReplyEvent {
    type V = ReplyEventView;

    open spec fn deep_view(&self) -> ReplyEventView {
        match self {
            ReplyEvent::Window(w) => ReplyEventView::Window(w.deep_view()),
            ReplyEvent::Described(d) => ReplyEventView::Described(d.deep_view()),
            ReplyEvent::Summaries(s) => ReplyEventView::Summaries(s.deep_view()),
            ReplyEvent::People(p) => ReplyEventView::People(p.deep_view()),
            ReplyEvent::Moments(m) => ReplyEventView::Moments(m.deep_view()),
            ReplyEvent::Answered(t) => ReplyEventView::Answered(t@),
            ReplyEvent::Did => ReplyEventView::Did,
            ReplyEvent::Failed(e) => ReplyEventView::Failed(e.deep_view()),
        }
    }
}

impl DeepView for ReplyAction {
    type V = ReplyActionView;

    open spec fn deep_view(&self) -> ReplyActionView {
        match self {
            ReplyAction::ReadWindow => ReplyActionView::ReadWindow,
            ReplyAction::Perceive(t) => ReplyActionView::Perceive(*t),
            ReplyAction::Embed(t) => ReplyActionView::Embed(t@),
            ReplyAction::FindSummaries => ReplyActionView::FindSummaries,
            ReplyAction::FindPeople => ReplyActionView::FindPeople,
            ReplyAction::FindMoments => ReplyActionView::FindMoments,
            ReplyAction::Ask { model, messages } => ReplyActionView::Ask {
                model: model@,
                messages: messages.deep_view(),
            },
            ReplyAction::Send(t) => ReplyActionView::Send(t@),
            ReplyAction::Persist => ReplyActionView::Persist,
            ReplyAction::Done => ReplyActionView::Done,
            ReplyAction::Fail(e) => ReplyActionView::Fail(e.deep_view()),
        }
    }
}

impl ReplyRunView {
    /// Goes to a phase.
    pub open spec fn to(self, phase: ReplyPhase) -> ReplyRunView {
        ReplyRunView { phase, ..self }
    }

    /// Embeds the message.
    pub open spec fn embed(self) -> (ReplyRunView, ReplyActionView) {
        (self.to(ReplyPhase::Embedding), ReplyActionView::Embed(self.user_text))
    }

    /// Goes on once the window is there.
    pub open spec fn look(self) -> (ReplyRunView, ReplyActionView) {
        if self.target is Nothing {
            self.embed()
        } else {
            (self.to(ReplyPhase::Perceiving), ReplyActionView::Perceive(self.target))
        }
    }

    /// Asks the model.
    pub open spec fn ask(self, moments: Seq<Seq<char>>) -> (ReplyRunView, ReplyActionView) {
        (
            self.to(ReplyPhase::Asking),
            ReplyActionView::Ask {
                model: self.model,
                messages: reply_messages(
                    self.system,
                    self.summaries,
                    self.people,
                    moments,
                    self.window,
                    self.line,
                    self.desc,
                ),
            },
        )
    }

    /// What an event leads to.
    pub open spec fn on(self, event: ReplyEventView) -> (ReplyRunView, ReplyActionView) {
        match (self.phase, event) {
            (ReplyPhase::Window, ReplyEventView::Window(window)) => ReplyRunView {
                window,
                ..self
            }.look(),
            (ReplyPhase::Window, _) => self.look(),
            (ReplyPhase::Perceiving, ReplyEventView::Described(desc)) => ReplyRunView {
                desc,
                ..self
            }.embed(),
            (ReplyPhase::Perceiving, _) => self.embed(),
            (ReplyPhase::Embedding, _) => (
                self.to(ReplyPhase::Summaries),
                ReplyActionView::FindSummaries,
            ),
            (ReplyPhase::Summaries, ReplyEventView::Summaries(summaries)) => (
                ReplyRunView { phase: ReplyPhase::People, summaries, ..self },
                ReplyActionView::FindPeople,
            ),
            (ReplyPhase::Summaries, _) => (
                self.to(ReplyPhase::People),
                ReplyActionView::FindPeople,
            ),
            (ReplyPhase::People, ReplyEventView::People(people)) => (
                ReplyRunView { phase: ReplyPhase::Moments, people, ..self },
                ReplyActionView::FindMoments,
            ),
            (ReplyPhase::People, _) => (
                self.to(ReplyPhase::Moments),
                ReplyActionView::FindMoments,
            ),
            (ReplyPhase::Moments, ReplyEventView::Moments(moments)) => self.ask(moments),
            (ReplyPhase::Moments, _) => self.ask(Seq::empty()),
            (_, ReplyEventView::Failed(e)) => (
                self.to(ReplyPhase::Ended),
                ReplyActionView::Fail(e),
            ),
            (ReplyPhase::Asking, ReplyEventView::Answered(t)) => if trim_seq(t).len() == 0 {
                (self.to(ReplyPhase::Ended), ReplyActionView::Done)
            } else {
                (self.to(ReplyPhase::Sending), ReplyActionView::Send(trim_seq(t)))
            },
            (ReplyPhase::Sending, _) => (
                self.to(ReplyPhase::Persisting),
                ReplyActionView::Persist,
            ),
            (_, _) => (self.to(ReplyPhase::Ended), ReplyActionView::Done),
        }
    }
}

/// Answering before its first step.
pub open spec fn fresh_reply(msg: Incoming, system: Seq<char>, model: Seq<char>) -> ReplyRunView {
    let text = text_or(body_of(msg), Seq::empty());
    ReplyRunView {
        phase: ReplyPhase::Window,
        system,
        model,
        user_text: text,
        line: current_line(msg, text),
        target: target_of(msg),
        window: Seq::empty(),
        desc: None,
        summaries: Seq::empty(),
        people: Seq::empty(),
    }
}

/// Starts answering a message.
pub fn reply(msg: &Incoming, system: &str, model: &str) -> (r: (ReplyRun, ReplyAction))
    ensures
        r.0.deep_view() == fresh_reply(*msg, system@, model@),
        r.1.deep_view() == ReplyActionView::ReadWindow,
{
    let user_text = match extract_text(msg) {
        Some(t) => t,
        None => {
            let s = String::new();
            assert(s@ =~= Seq::<char>::empty());
            s
        },
    };
    let line = format_current_msg(msg, user_text.as_str());
    let run = ReplyRun {
        phase: ReplyPhase::Window,
        system: system.to_owned(),
        model: model.to_owned(),
        user_text,
        line,
        target: media_target(msg),
        window: Vec::new(),
        desc: None,
        summaries: Vec::new(),
        people: Vec::new(),
    };
    assert(run.deep_view() =~= fresh_reply(*msg, system@, model@));
    (run, ReplyAction::ReadWindow)
}

impl ReplyRun {
    fn embed(&mut self) -> (r: ReplyAction)
        ensures
            (final(self).deep_view(), r.deep_view()) == old(self).deep_view().embed(),
    {
        self.phase = ReplyPhase::Embedding;
        assert(self.deep_view() =~= old(self).deep_view().to(ReplyPhase::Embedding));
        ReplyAction::Embed(self.user_text.clone())
    }

    fn look(&mut self) -> (r: ReplyAction)
        ensures
            (final(self).deep_view(), r.deep_view()) == old(self).deep_view().look(),
    {
        if self.target == Target::Nothing {
            return self.embed();
        }
        self.phase = ReplyPhase::Perceiving;
        assert(self.deep_view() =~= old(self).deep_view().to(ReplyPhase::Perceiving));
        ReplyAction::Perceive(self.target)
    }

    fn ask(&mut self, moments: &Vec<String>) -> (r: ReplyAction)
        ensures
            (final(self).deep_view(), r.deep_view()) == old(self).deep_view().ask(
                moments.deep_view(),
            ),
    {
        let messages = build_messages(
            self.system.as_str(),
            &self.summaries,
            &self.people,
            moments,
            &self.window,
            self.line.as_str(),
            &self.desc,
        );
        self.phase = ReplyPhase::Asking;
        assert(self.deep_view() =~= old(self).deep_view().to(ReplyPhase::Asking));
        ReplyAction::Ask { model: self.model.clone(), messages }
    }

    fn go(&mut self, phase: ReplyPhase, action: ReplyAction) -> (r: ReplyAction)
        ensures
            r == action,
            final(self).deep_view() == old(self).deep_view().to(phase),
    {
        self.phase = phase;
        assert(self.deep_view() =~= old(self).deep_view().to(phase));
        action
    }

    /// Takes in what happened and says what to do next. Whatever cannot be gathered is
    /// left out of what the model is shown; a model that cannot be asked and an answer
    /// that cannot be sent or kept are failures. A blank answer is not sent.
    pub fn advance(&mut self, event: ReplyEvent) -> (r: ReplyAction)
        ensures
            (final(self).deep_view(), r.deep_view()) == old(self).deep_view().on(
                event.deep_view(),
            ),
    {
        let ghost v = self.deep_view();
        let ghost ev = event.deep_view();
        match (self.phase, event) {
            (ReplyPhase::Window, ReplyEvent::Window(w)) => {
                self.window = w;
                assert(self.deep_view() =~= ReplyRunView { window: w.deep_view(), ..v });
                self.look()
            },
            (ReplyPhase::Window, _) => self.look(),
            (ReplyPhase::Perceiving, ReplyEvent::Described(d)) => {
                self.desc = d;
                assert(self.deep_view() =~= ReplyRunView { desc: d.deep_view(), ..v });
                self.embed()
            },
            (ReplyPhase::Perceiving, _) => self.embed(),
            (ReplyPhase::Embedding, _) => self.go(
                ReplyPhase::Summaries,
                ReplyAction::FindSummaries,
            ),
            (ReplyPhase::Summaries, ReplyEvent::Summaries(s)) => {
                self.summaries = s;
                self.phase = ReplyPhase::People;
                assert(self.deep_view() =~= v.on(ev).0);
                ReplyAction::FindPeople
            },
            (ReplyPhase::Summaries, _) => self.go(ReplyPhase::People, ReplyAction::FindPeople),
            (ReplyPhase::People, ReplyEvent::People(p)) => {
                self.people = p;
                self.phase = ReplyPhase::Moments;
                assert(self.deep_view() =~= v.on(ev).0);
                ReplyAction::FindMoments
            },
            (ReplyPhase::People, _) => self.go(ReplyPhase::Moments, ReplyAction::FindMoments),
            (ReplyPhase::Moments, ReplyEvent::Moments(m)) => self.ask(&m),
            (ReplyPhase::Moments, _) => {
                let none: Vec<String> = Vec::new();
                assert(none.deep_view() =~= Seq::<Seq<char>>::empty());
                self.ask(&none)
            },
            (_, ReplyEvent::Failed(e)) => self.go(ReplyPhase::Ended, ReplyAction::Fail(e)),
            (ReplyPhase::Asking, ReplyEvent::Answered(t)) => {
                if is_blank(t.as_str()) {
                    return self.go(ReplyPhase::Ended, ReplyAction::Done);
                }
                self.go(ReplyPhase::Sending, ReplyAction::Send(trim(t.as_str())))
            },
            (ReplyPhase::Sending, _) => self.go(ReplyPhase::Persisting, ReplyAction::Persist),
            (_, _) => self.go(ReplyPhase::Ended, ReplyAction::Done),
        }
    }
}

/// The prompt begins with the system prompt and ends with the message to be answered,
/// whatever was gathered.
pub proof fn law_prompt_frame(
    system: Seq<char>,
    summaries: Seq<Seq<char>>,
    people: PeopleView,
    moments: Seq<Seq<char>>,
    window: Seq<WorkingMessageView>,
    line: Seq<char>,
    desc: Option<Seq<char>>,
)
    ensures
        ({
            let m = reply_messages(system, summaries, people, moments, window, line, desc);
            let layers = (if summaries.len() > 0 { 1int } else { 0 }) + (if people.len() > 0 {
                1int
            } else {
                0
            }) + (if moments.len() > 0 { 1int } else { 0 });
            &&& m.len() == 2 + layers + window.len()
            &&& m[0] == text_message("system"@, system)
            &&& m.last() == text_message("user"@, question(line, desc))
            &&& forall|i: int|
                0 <= i < window.len() ==> m[1 + layers + i] == text_message(
                    "user"@,
                    window_line(#[trigger] window[i]),
                )
        }),
{
}

/// A text that is sent is never blank.
pub proof fn law_blank_answers_are_not_sent(run: ReplyRunView, event: ReplyEventView)
    requires
        run.on(event).1 is Send,
    ensures
        run.on(event).1->Send_0.len() > 0,
{
}

/// Nothing that fails before the model is asked keeps the bot from answering.
pub proof fn law_gathering_never_fails(run: ReplyRunView, event: ReplyEventView)
    requires
        run.phase is Window || run.phase is Perceiving || run.phase is Embedding || run.phase
            is Summaries || run.phase is People || run.phase is Moments,
    ensures
        !(run.on(event).1 is Fail) && !(run.on(event).1 is Done),
{
}

} // verus!
