//! What answering a message promises as a whole.
use vstd::prelude::*;

use crate::bot::incoming::{body_of, Incoming};
use crate::bot::reply::{
    fresh_reply, question, reply_messages, window_messages, ReplyActionView, ReplyEventView,
    ReplyPhase, ReplyRunView, Target,
};
use crate::bot::handlers::window_line;
use crate::error::ErrorView;
use crate::llm::client::{text_message, MessageView};
use crate::llm::prompt_builder::{
    dashed, list_text, people_text, person_text, person_texts, PeopleView,
};
use crate::memory::working::WorkingMessageView;
use crate::text::{concat_all, decimal, trim_seq};

verus! {

/// A heading, and a line for each item.
pub open spec fn listed(heading: Seq<char>, items: Seq<Seq<char>>) -> Seq<char>
    decreases items.len(),
{
    if items.len() == 0 {
        heading
    } else {
        listed(heading, items.drop_last()) + "- "@ + items.last() + "\n"@
    }
}

/// `text`, and a line for each fact of a person.
pub open spec fn facts_listed(text: Seq<char>, facts: Seq<Seq<char>>) -> Seq<char>
    decreases facts.len(),
{
    if facts.len() == 0 {
        text
    } else {
        facts_listed(text, facts.drop_last()) + "  - "@ + facts.last() + "\n"@
    }
}

/// A heading, and the name and the facts of each person.
pub open spec fn people_listed(heading: Seq<char>, people: PeopleView) -> Seq<char>
    decreases people.len(),
{
    if people.len() == 0 {
        heading
    } else {
        facts_listed(
            people_listed(heading, people.drop_last()) + "@"@ + people.last().0 + ":\n"@,
            people.last().1,
        )
    }
}

/// Every item of a list stands in its text, in its order.
pub proof fn law_lists_are_whole(heading: Seq<char>, items: Seq<Seq<char>>)
    ensures
        list_text(heading, items) == listed(heading, items),
    decreases items.len(),
{
    if items.len() == 0 {
        assert(list_text(heading, items) =~= heading);
    } else {
        law_lists_are_whole(heading, items.drop_last());
        let all = dashed("- "@, items);
        assert(all.drop_last() =~= dashed("- "@, items.drop_last()));
        assert(list_text(heading, items) =~= listed(heading, items));
    }
}

proof fn lemma_facts_listed(text: Seq<char>, facts: Seq<Seq<char>>)
    ensures
        text + concat_all(dashed("  - "@, facts)) == facts_listed(text, facts),
    decreases facts.len(),
{
    if facts.len() == 0 {
        assert(text + concat_all(dashed("  - "@, facts)) =~= text);
    } else {
        lemma_facts_listed(text, facts.drop_last());
        let all = dashed("  - "@, facts);
        assert(all.drop_last() =~= dashed("  - "@, facts.drop_last()));
        assert(text + concat_all(all) =~= facts_listed(text, facts));
    }
}

/// Every person stands in the text, by name and with all facts, in their order.
pub proof fn law_people_are_whole(heading: Seq<char>, people: PeopleView)
    ensures
        people_text(heading, people) == people_listed(heading, people),
    decreases people.len(),
{
    if people.len() == 0 {
        assert(people_text(heading, people) =~= heading);
    } else {
        law_people_are_whole(heading, people.drop_last());
        let all = person_texts(people);
        let (name, facts) = people.last();
        assert(all.drop_last() =~= person_texts(people.drop_last()));
        let before = people_listed(heading, people.drop_last()) + "@"@ + name + ":\n"@;
        lemma_facts_listed(before, facts);
        assert(people_text(heading, people) =~= people_text(heading, people.drop_last())
            + person_text(name, facts));
        assert(people_text(heading, people.drop_last()) + person_text(name, facts) =~= before
            + concat_all(dashed("  - "@, facts)));
    }
}

/// A system message with `text` where there is something to say, else nothing.
pub open spec fn said_if(present: bool, text: Seq<char>) -> Seq<MessageView> {
    if present {
        seq![text_message("system"@, text)]
    } else {
        Seq::empty()
    }
}

/// What the model is shown of what was gathered: the system prompt, then the summaries,
/// the people and the moments where there are any, then the window, an entry a message,
/// and at the end the message to be answered.
pub open spec fn gathered(
    system: Seq<char>,
    summaries: Seq<Seq<char>>,
    people: PeopleView,
    moments: Seq<Seq<char>>,
    window: Seq<WorkingMessageView>,
    last: Seq<char>,
) -> Seq<MessageView> {
    seq![text_message("system"@, system)] + said_if(
        summaries.len() > 0,
        listed("[Релевантный контекст из прошлого чата]:\n"@, summaries),
    ) + said_if(
        people.len() > 0,
        people_listed("[Известные факты о участниках]:\n"@, people),
    ) + said_if(
        moments.len() > 0,
        listed("[Релевантные моменты из этого чата]:\n"@, moments),
    ) + window.map_values(|w: WorkingMessageView| text_message("user"@, window_line(w))) + seq![
        text_message("user"@, last),
    ]
}

proof fn lemma_messages(
    system: Seq<char>,
    summaries: Seq<Seq<char>>,
    people: PeopleView,
    moments: Seq<Seq<char>>,
    window: Seq<WorkingMessageView>,
    line: Seq<char>,
    desc: Option<Seq<char>>,
)
    ensures
        reply_messages(system, summaries, people, moments, window, line, desc) == gathered(
            system,
            summaries,
            people,
            moments,
            window,
            question(line, desc),
        ),
{
    law_lists_are_whole("[Релевантный контекст из прошлого чата]:\n"@, summaries);
    law_people_are_whole("[Известные факты о участниках]:\n"@, people);
    law_lists_are_whole("[Релевантные моменты из этого чата]:\n"@, moments);
    assert(window_messages(window) =~= window.map_values(
        |w: WorkingMessageView| text_message("user"@, window_line(w)),
    ));
    assert(reply_messages(system, summaries, people, moments, window, line, desc) =~= gathered(
        system,
        summaries,
        people,
        moments,
        window,
        question(line, desc),
    ));
}

/// Who a message is from, as the model is shown it.
pub open spec fn sender_shown(msg: Incoming) -> Seq<char> {
    match msg.from {
        Some(u) => match u.username {
            Some(n) => n@,
            None => u.first_name@,
        },
        None => "anon"@,
    }
}

/// What a message says, with what its media show.
pub open spec fn said(msg: Incoming, desc: Option<Seq<char>>) -> Seq<char> {
    let text = match body_of(msg) {
        Some(t) => t,
        None => Seq::empty(),
    };
    let line = sender_shown(msg) + ": "@ + text;
    match desc {
        Some(d) => line + " [Изображение/Голосовое: "@ + d + "]"@,
        None => line,
    }
}

/// The window that came, or none where it could not be had.
pub open spec fn window_in(event: ReplyEventView) -> Seq<WorkingMessageView> {
    match event {
        ReplyEventView::Window(w) => w,
        _ => Seq::empty(),
    }
}

/// The summaries that came, or none where they could not be had.
pub open spec fn summaries_in(event: ReplyEventView) -> Seq<Seq<char>> {
    match event {
        ReplyEventView::Summaries(s) => s,
        _ => Seq::empty(),
    }
}

/// The people that came, or none where they could not be had.
pub open spec fn people_in(event: ReplyEventView) -> PeopleView {
    match event {
        ReplyEventView::People(p) => p,
        _ => Seq::empty(),
    }
}

/// The moments that came, or none where they could not be had.
pub open spec fn moments_in(event: ReplyEventView) -> Seq<Seq<char>> {
    match event {
        ReplyEventView::Moments(m) => m,
        _ => Seq::empty(),
    }
}

/// Answering a message, from its start to the question to the model. Whatever came of
/// each search, all that was found is shown to the model, and what could not be had is
/// left out; where the message or the one it answers has media, these are described
/// first, and what they show is shown too.
pub proof fn law_all_that_was_gathered_is_shown(
    msg: Incoming,
    system: Seq<char>,
    model: Seq<char>,
    window: ReplyEventView,
    described: ReplyEventView,
    embedded: ReplyEventView,
    summaries: ReplyEventView,
    people: ReplyEventView,
    moments: ReplyEventView,
)
    ensures
        ({
            let start = fresh_reply(msg, system, model);
            let r1 = start.on(window);
            let r2 = if start.target is Nothing {
                r1
            } else {
                r1.0.on(described)
            };
            let r3 = r2.0.on(embedded);
            let r4 = r3.0.on(summaries);
            let r5 = r4.0.on(people);
            let r6 = r5.0.on(moments);
            let desc = match described {
                ReplyEventView::Described(d) if !(start.target is Nothing) => d,
                _ => None,
            };
            let text = match body_of(msg) {
                Some(t) => t,
                None => Seq::empty(),
            };
            &&& !(start.target is Nothing) ==> r1.1 == ReplyActionView::Perceive(start.target)
            &&& r2.1 == ReplyActionView::Embed(text)
            &&& r3.1 == ReplyActionView::FindSummaries
            &&& r4.1 == ReplyActionView::FindPeople
            &&& r5.1 == ReplyActionView::FindMoments
            &&& r6.1 == (ReplyActionView::Ask {
                model,
                messages: gathered(
                    system,
                    summaries_in(summaries),
                    people_in(people),
                    moments_in(moments),
                    window_in(window),
                    said(msg, desc),
                ),
            })
        }),
{
    let start = fresh_reply(msg, system, model);
    let r1 = start.on(window);
    let r2 = if start.target is Nothing {
        r1
    } else {
        r1.0.on(described)
    };
    let desc = match described {
        ReplyEventView::Described(d) if !(start.target is Nothing) => d,
        _ => None,
    };
    assert(r2.0.desc == desc);
    assert(question(start.line, desc) =~= said(msg, desc));
    lemma_messages(
        system,
        summaries_in(summaries),
        people_in(people),
        moments_in(moments),
        window_in(window),
        start.line,
        desc,
    );
}

/// The moments that were found reach the model: where there are any, one of the messages
/// is a system message that lists all of them.
pub proof fn law_moments_reach_the_model(run: ReplyRunView, moments: Seq<Seq<char>>)
    requires
        run.phase is Moments,
        moments.len() > 0,
    ensures
        run.on(ReplyEventView::Moments(moments)).1 matches ReplyActionView::Ask {
            messages,
            ..
        } && messages.contains(
            text_message(
                "system"@,
                listed("[Релевантные моменты из этого чата]:\n"@, moments),
            ),
        ),
{
    lemma_messages(
        run.system,
        run.summaries,
        run.people,
        moments,
        run.window,
        run.line,
        run.desc,
    );
    let m = reply_messages(
        run.system,
        run.summaries,
        run.people,
        moments,
        run.window,
        run.line,
        run.desc,
    );
    let at = 1 + said_if(
        run.summaries.len() > 0,
        listed("[Релевантный контекст из прошлого чата]:\n"@, run.summaries),
    ).len() + said_if(
        run.people.len() > 0,
        people_listed("[Известные факты о участниках]:\n"@, run.people),
    ).len();
    assert(m[at as int] == text_message(
        "system"@,
        listed("[Релевантные моменты из этого чата]:\n"@, moments),
    ));
}

/// The model's answer is sent as it is but for white space at the ends, and then kept;
/// a blank one is neither sent nor kept.
pub proof fn law_the_answer_is_sent_and_kept(
    run: ReplyRunView,
    answer: Seq<char>,
    kept: ReplyEventView,
)
    requires
        run.phase is Asking,
        !(kept is Failed),
    ensures
        ({
            let sent = run.on(ReplyEventView::Answered(answer));
            let keeping = sent.0.on(ReplyEventView::Did);
            &&& trim_seq(answer).len() == 0 ==> sent.1 == ReplyActionView::Done
            &&& trim_seq(answer).len() > 0 ==> {
                &&& sent.1 == ReplyActionView::Send(trim_seq(answer))
                &&& keeping.1 == ReplyActionView::Persist
                &&& keeping.0.on(kept).1 == ReplyActionView::Done
            }
        }),
{
}

/// A model that cannot be asked and an answer that cannot be sent or kept are reported.
pub proof fn law_late_failures_are_reported(run: ReplyRunView, e: ErrorView)
    requires
        run.phase is Asking || run.phase is Sending || run.phase is Persisting,
    ensures
        run.on(ReplyEventView::Failed(e)).1 == ReplyActionView::Fail(e),
        run.on(ReplyEventView::Failed(e)).0.phase == ReplyPhase::Ended,
{
}

/// The model is shown of a window entry who wrote it, what it says and what its media
/// show.
pub proof fn law_window_entries_are_shown_whole(w: WorkingMessageView)
    ensures
        ({
            let who = match w.username {
                Some(n) => n,
                None => "uid:"@ + decimal(w.user_id as int),
            };
            let shown = window_line(w);
            let n = who.len() as int;
            let t = w.text.len() as int;
            &&& shown.take(n) == who
            &&& shown.subrange(n, n + 2) == seq![':', ' ']
            &&& shown.subrange(n + 2, n + 2 + t) == w.text
            &&& w.media_desc is None ==> shown.len() == n + 2 + t
            &&& w.media_desc matches Some(d) ==> shown.skip(n + 2 + t) == " ["@ + d + "]"@
        }),
{
    reveal_strlit(": ");
    let who = match w.username {
        Some(n) => n,
        None => "uid:"@ + decimal(w.user_id as int),
    };
    let shown = window_line(w);
    let n = who.len() as int;
    let t = w.text.len() as int;
    assert(shown.take(n) =~= who);
    assert(shown.subrange(n, n + 2) =~= seq![':', ' ']);
    assert(shown.subrange(n + 2, n + 2 + t) =~= w.text);
    if w.media_desc is Some {
        assert(shown.skip(n + 2 + t) =~= " ["@ + w.media_desc->0 + "]"@);
    }
}

/// The media that are looked at are those of the message, or else those of the message
/// that it answers; where neither has any, none are.
pub proof fn law_media_of_the_message_come_first(msg: Incoming, system: Seq<char>, model: Seq<char>)
    ensures
        ({
            let here = crate::bot::incoming::carries_media(msg.media);
            let there = msg.reply_to matches Some(r) && crate::bot::incoming::carries_media(
                r.media,
            );
            let target = fresh_reply(msg, system, model).target;
            &&& target == Target::Current <==> here
            &&& target == Target::RepliedTo <==> !here && there
            &&& target == Target::Nothing <==> !here && !there
        }),
{
}

} // verus!
