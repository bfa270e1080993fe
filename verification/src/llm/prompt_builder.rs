//! The layers of a prompt.
use vstd::prelude::*;

use crate::llm::client::{push_message, text_message, Message, MessageView};
use crate::llm::prompts::persona::CORE_PERSONA;
use crate::llm::prompts::system::{FewShot, FewShotView};
use crate::memory::working::{WorkingMessage, WorkingMessageView};
use crate::text::{concat_all, lemma_concat_step, opt_or, text_or};

verus! {

/// How many examples of the bot's style the dynamic prompt shows.
pub const STYLE_EXAMPLES: u32 = 3;

/// What is known of each person: a name and facts.
pub type People = Vec<(String, Vec<String>)>;

/// The same as a mathematical value.
pub type PeopleView = Seq<(Seq<char>, Seq<Seq<char>>)>;

/// Each item on a line of its own, behind `dash`.
pub open spec fn dashed(dash: Seq<char>, items: Seq<Seq<char>>) -> Seq<Seq<char>> {
    Seq::new(items.len(), |i: int| dash + items[i] + "\n"@)
}

/// A heading and items.
pub open spec fn list_text(heading: Seq<char>, items: Seq<Seq<char>>) -> Seq<char> {
    heading + concat_all(dashed("- "@, items))
}

/// One person: the name, and a line for each fact.
pub open spec fn person_text(name: Seq<char>, facts: Seq<Seq<char>>) -> Seq<char> {
    "@"@ + name + ":\n"@ + concat_all(dashed("  - "@, facts))
}

/// The people, each by name and facts.
pub open spec fn person_texts(people: PeopleView) -> Seq<Seq<char>> {
    Seq::new(people.len(), |i: int| person_text(people[i].0, people[i].1))
}

/// A heading and people.
pub open spec fn people_text(heading: Seq<char>, people: PeopleView) -> Seq<char> {
    heading + concat_all(person_texts(people))
}

fn append_dashed(head: String, dash: &str, items: &Vec<String>) -> (r: String)
    ensures
        r@ == head@ + concat_all(dashed(dash@, items.deep_view())),
{
    let mut s = head;
    let ghost parts = dashed(dash@, items.deep_view());
    assert(parts.take(0) =~= Seq::empty());
    assert(head@ + concat_all(parts.take(0)) =~= head@);
    for i in 0..items.len()
        invariant
            parts == dashed(dash@, items.deep_view()),
            s@ == head@ + concat_all(parts.take(i as int)),
    {
        let mut line = dash.to_owned();
        line.append(items[i].as_str());
        line.append("\n");
        proof {
            assert(items.deep_view()[i as int] == items@[i as int]@);
            assert(line@ == parts[i as int]);
            lemma_concat_step(parts, i as int);
        }
        s.append(line.as_str());
        assert(s@ =~= head@ + (concat_all(parts.take(i as int)) + line@));
    }
    assert(parts.take(items@.len() as int) =~= parts);
    s
}

/// A heading and items, each on a line of its own.
pub fn list_block(heading: &str, items: &Vec<String>) -> (r: String)
    ensures
        r@ == list_text(heading@, items.deep_view()),
{
    append_dashed(heading.to_owned(), "- ", items)
}

/// A heading and people, each with a line for each fact.
pub fn people_block(heading: &str, people: &People) -> (r: String)
    ensures
        r@ == people_text(heading@, people.deep_view()),
{
    let mut s = heading.to_owned();
    let ghost parts = person_texts(people.deep_view());
    assert(parts.take(0) =~= Seq::empty());
    assert(heading@ + concat_all(parts.take(0)) =~= heading@);
    for i in 0..people.len()
        invariant
            parts == person_texts(people.deep_view()),
            s@ == heading@ + concat_all(parts.take(i as int)),
    {
        let mut head = "@".to_owned();
        head.append(people[i].0.as_str());
        head.append(":\n");
        let one = append_dashed(head, "  - ", &people[i].1);
        proof {
            assert(people.deep_view()[i as int] == people@[i as int].deep_view());
            assert(one@ == parts[i as int]);
            lemma_concat_step(parts, i as int);
        }
        s.append(one.as_str());
        assert(s@ =~= heading@ + (concat_all(parts.take(i as int)) + one@));
    }
    assert(parts.take(people@.len() as int) =~= parts);
    s
}

/// One example of the bot's style.
pub open spec fn style_text(shot: FewShotView) -> Seq<char> {
    "Контекст: "@ + shot.context + "\nТвой ответ: "@ + shot.reply + "\n\n"@
}

/// Examples of the bot's style.
pub open spec fn style_texts(shots: Seq<FewShotView>) -> Seq<Seq<char>> {
    Seq::new(shots.len(), |i: int| style_text(shots[i]))
}

fn style_block(shots: &Vec<FewShot>) -> (r: String)
    ensures
        r@ == "[Примеры твоего стиля общения]:\n"@ + concat_all(style_texts(shots.deep_view())),
{
    let mut s = "[Примеры твоего стиля общения]:\n".to_owned();
    let ghost head = s@;
    let ghost parts = style_texts(shots.deep_view());
    assert(parts.take(0) =~= Seq::empty());
    assert(head + concat_all(parts.take(0)) =~= head);
    for i in 0..shots.len()
        invariant
            parts == style_texts(shots.deep_view()),
            s@ == head + concat_all(parts.take(i as int)),
    {
        let mut one = "Контекст: ".to_owned();
        one.append(shots[i].context.as_str());
        one.append("\nТвой ответ: ");
        one.append(shots[i].reply.as_str());
        one.append("\n\n");
        proof {
            assert(shots.deep_view()[i as int] == shots@[i as int].deep_view());
            assert(one@ == parts[i as int]);
            lemma_concat_step(parts, i as int);
        }
        s.append(one.as_str());
        assert(s@ =~= head + (concat_all(parts.take(i as int)) + one@));
    }
    assert(parts.take(shots@.len() as int) =~= parts);
    s
}

/// A window entry as the dynamic prompt shows it, where `bot_id` is the bot: its own
/// entries are marked as such, the others bear the name of who wrote them.
pub open spec fn window_line(w: WorkingMessageView, bot_id: i64) -> Seq<char> {
    let line = if w.user_id == bot_id {
        "[я]: "@ + w.text
    } else {
        "@"@ + text_or(w.username, "unknown"@) + ": "@ + w.text
    };
    match w.media_desc {
        Some(d) => line + " [медиа: "@ + d + "]"@,
        None => line,
    }
}

/// A window entry as the dynamic prompt shows it: who wrote it, the bot itself or
/// another, what it says, and what is known of its media.
pub fn format_window_msg(w: &WorkingMessage, bot_id: i64) -> (r: String)
    ensures
        r@ == window_line(w.deep_view(), bot_id),
{
    let mut s: String;
    if w.user_id == bot_id {
        s = "[я]: ".to_owned();
    } else {
        s = "@".to_owned();
        s.append(opt_or(&w.username, "unknown"));
        s.append(": ");
    }
    s.append(w.text.as_str());
    if let Some(d) = &w.media_desc {
        s.append(" [медиа: ");
        s.append(d.as_str());
        s.append("]");
    }
    s
}

/// A user message for each window entry.
pub open spec fn thread(window: Seq<WorkingMessageView>, bot_id: i64) -> Seq<MessageView> {
    Seq::new(window.len(), |i: int| text_message("user"@, window_line(window[i], bot_id)))
}

/// A system message with `text`, where there is something to say.
pub open spec fn layer(present: bool, text: Seq<char>) -> Seq<MessageView> {
    if present {
        seq![text_message("system"@, text)]
    } else {
        Seq::empty()
    }
}

/// Appends a layer where there is something to say.
pub fn push_layer(v: &mut Vec<Message>, present: bool, text: String)
    ensures
        final(v).deep_view() == old(v).deep_view() + layer(present, text@),
{
    if present {
        push_message(v, Message::system(text));
        assert(v.deep_view() =~= old(v).deep_view() + layer(true, text@));
    } else {
        assert(v.deep_view() =~= old(v).deep_view() + layer(false, text@));
    }
}

/// What the layers are made of.
pub struct Layers {
    pub dna: String,
    pub events: Vec<String>,
    pub summaries: Vec<String>,
    pub people: People,
    pub shots: Vec<FewShot>,
    pub window: Vec<WorkingMessage>,
    /// The bot's own account.
    pub bot_id: i64,
}

/// The prompt of these layers: the character, the portrait of the chat, past
/// moments, summaries, people, examples of style and the thread. A layer with
/// nothing to say is left out.
pub open spec fn assembled(l: Layers) -> Seq<MessageView> {
    seq![text_message("system"@, CORE_PERSONA@)] + layer(
        true,
        "[ДНК этого чата]:\n"@ + l.dna@,
    ) + layer(
        l.events.deep_view().len() > 0,
        list_text("[Релевантные моменты из прошлого]:\n"@, l.events.deep_view()),
    ) + layer(
        l.summaries.deep_view().len() > 0,
        list_text("[Контекст из истории чата]:\n"@, l.summaries.deep_view()),
    ) + layer(
        l.people.deep_view().len() > 0,
        people_text("[Факты об участниках]:\n"@, l.people.deep_view()),
    ) + layer(
        l.shots.deep_view().len() > 0,
        "[Примеры твоего стиля общения]:\n"@ + concat_all(style_texts(l.shots.deep_view())),
    ) + thread(l.window.deep_view(), l.bot_id)
}

/// Puts the layers together.
pub fn assemble(l: &Layers) -> (r: Vec<Message>)
    ensures
        r.deep_view() == assembled(*l),
{
    let mut v: Vec<Message> = Vec::new();
    v.push(Message::system(CORE_PERSONA.to_owned()));
    assert(v.deep_view() =~= seq![text_message("system"@, CORE_PERSONA@)]);
    let dna = crate::error::joined("[ДНК этого чата]:\n", l.dna.as_str());
    push_layer(&mut v, true, dna);
    let events = list_block("[Релевантные моменты из прошлого]:\n", &l.events);
    push_layer(&mut v, l.events.len() > 0, events);
    let summaries = list_block("[Контекст из истории чата]:\n", &l.summaries);
    push_layer(&mut v, l.summaries.len() > 0, summaries);
    let people = people_block("[Факты об участниках]:\n", &l.people);
    push_layer(&mut v, l.people.len() > 0, people);
    let style = style_block(&l.shots);
    push_layer(&mut v, l.shots.len() > 0, style);
    let ghost head = v.deep_view();
    let ghost tail = thread(l.window.deep_view(), l.bot_id);
    assert(head + tail.take(0) =~= head);
    for i in 0..l.window.len()
        invariant
            tail == thread(l.window.deep_view(), l.bot_id),
            v.deep_view() == head + tail.take(i as int),
    {
        let line = format_window_msg(&l.window[i], l.bot_id);
        assert(l.window.deep_view()[i as int] == l.window@[i as int].deep_view());
        push_message(&mut v, Message::user(line));
        assert(v.deep_view() =~= head + tail.take(i + 1));
    }
    assert(tail.take(l.window@.len() as int) =~= tail);
    v
}

} // verus!
