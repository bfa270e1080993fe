//! What summaries, portraits of chats and examples of style promise as a whole.
use vstd::prelude::*;
use vstd::utf8::encode_utf8;

use crate::encoding::dns_uuid;
use crate::error::ErrorView;
use crate::llm::client::text_message;
use crate::llm::prompts::summary::{DNA_PROMPT, SUMMARY_PROMPT};
use crate::llm::prompts::system::FewShotView;
use crate::storage::qdrant::{PayloadValueView, SearchHitView};
use crate::tasks::chat_dna::{dash_items, dna_step, DnaEventView, DnaStepView};
use crate::tasks::shots_seeder::{
    first_fault, seed_step, shot_of, shots_of, SeedEventView, SeedStepView,
};
use crate::tasks::summarize::{
    fresh_summary, summary_line, summary_lines, summary_payload, MessageRowView,
    SummaryActionView, SummaryEventView, SummaryRunView,
};
use crate::text::{concat_all, join_seq, lemma_concat_front, trim_seq};

verus! {

/// The messages as the model is shown them, the oldest first, where `rows` has the
/// latest first: who said what, and what the media show. A message without text and
/// description is left out.
pub open spec fn told(rows: Seq<MessageRowView>) -> Seq<char>
    decreases rows.len(),
{
    if rows.len() == 0 {
        Seq::empty()
    } else {
        let oldest = rows.last();
        let who = match oldest.username {
            Some(n) => n,
            None => "anon"@,
        };
        let text = match oldest.text {
            Some(t) => t,
            None => ""@,
        };
        let rest = told(rows.drop_last());
        match oldest.media_description {
            Some(d) => who + ": "@ + text + " ["@ + d + "]\n"@ + rest,
            None => if text.len() == 0 {
                rest
            } else {
                who + ": "@ + text + "\n"@ + rest
            },
        }
    }
}

/// The model is shown all the messages, the oldest first.
pub proof fn law_every_message_is_summarised(rows: Seq<MessageRowView>)
    ensures
        concat_all(summary_lines(rows)) == told(rows),
    decreases rows.len(),
{
    reveal_strlit("");
    if rows.len() == 0 {
        assert(summary_lines(rows) =~= Seq::empty());
    } else {
        law_every_message_is_summarised(rows.drop_last());
        assert(summary_lines(rows) =~= seq![summary_line(rows.last())] + summary_lines(
            rows.drop_last(),
        ));
        lemma_concat_front(summary_line(rows.last()), summary_lines(rows.drop_last()));
        assert(concat_all(summary_lines(rows)) =~= told(rows));
    }
}

/// A summary from the count to the store. Where the count is reached it is started anew,
/// the latest messages are read and shown to the model, and its answer, but for white
/// space at the ends, is embedded and stored.
pub proof fn law_summary_takes_its_course(
    threshold: u32,
    lookback: u32,
    model: Seq<char>,
    count: i64,
    rows: Seq<MessageRowView>,
    answer: Seq<char>,
)
    requires
        threshold > 0,
        count >= threshold,
        rows.len() > 0,
    ensures
        ({
            let r1 = fresh_summary(threshold, lookback, model).on(
                SummaryEventView::Counted(count),
            );
            let r2 = r1.0.on(SummaryEventView::Did);
            let r3 = r2.0.on(SummaryEventView::Messages(rows));
            let r4 = r3.0.on(SummaryEventView::Answered(answer));
            let r5 = r4.0.on(SummaryEventView::Did);
            let r6 = r5.0.on(SummaryEventView::Did);
            &&& r1.1 == SummaryActionView::Reset
            &&& r2.1 == (SummaryActionView::Read { limit: lookback as i64 })
            &&& r3.1 == (SummaryActionView::Ask {
                model,
                messages: seq![
                    text_message("system"@, SUMMARY_PROMPT@),
                    text_message("user"@, told(rows)),
                ],
            })
            &&& trim_seq(answer).len() == 0 ==> r4.1 == SummaryActionView::Done
            &&& trim_seq(answer).len() > 0 ==> {
                &&& r4.1 == SummaryActionView::Embed(trim_seq(answer))
                &&& r5.1 == SummaryActionView::Store(trim_seq(answer))
                &&& r6.1 == SummaryActionView::Done
            }
        }),
{
    law_every_message_is_summarised(rows);
}

/// Below the threshold, and where there are no messages, there is no summary; what fails
/// is reported and ends it.
pub proof fn law_summary_ends_early(
    threshold: u32,
    lookback: u32,
    model: Seq<char>,
    count: i64,
    run: SummaryRunView,
    e: ErrorView,
    later: SummaryEventView,
)
    requires
        threshold > 0,
        count < threshold,
        !(later is Failed),
    ensures
        fresh_summary(threshold, lookback, model).on(SummaryEventView::Counted(count)).1
            == SummaryActionView::Done,
        run.phase is Reading ==> run.on(SummaryEventView::Messages(Seq::empty())).1
            == SummaryActionView::Done,
        run.on(SummaryEventView::Failed(e)).1 == SummaryActionView::Fail(e),
        run.on(SummaryEventView::Failed(e)).0.on(later).1 == SummaryActionView::Done,
{
}

/// A summary's point holds its chat and its text.
pub proof fn law_summary_point_holds_the_text(chat_id: i64, text: Seq<char>)
    ensures
        summary_payload(chat_id, text).contains(("chat_id"@, PayloadValueView::Int(chat_id))),
        summary_payload(chat_id, text).contains(("text"@, PayloadValueView::Text(text))),
        summary_payload(chat_id, text).len() == 2,
{
    let p = summary_payload(chat_id, text);
    assert(p[0] == ("chat_id"@, PayloadValueView::Int(chat_id)));
    assert(p[1] == ("text"@, PayloadValueView::Text(text)));
}

/// The summaries as the model is shown them: each on a line of its own behind a dash.
pub open spec fn summaries_listed(summaries: Seq<Seq<char>>) -> Seq<char>
    decreases summaries.len(),
{
    if summaries.len() == 0 {
        Seq::empty()
    } else if summaries.len() == 1 {
        "- "@ + summaries[0]
    } else {
        summaries_listed(summaries.drop_last()) + "\n"@ + "- "@ + summaries.last()
    }
}

proof fn lemma_summaries_listed(summaries: Seq<Seq<char>>)
    ensures
        join_seq(dash_items(summaries), "\n"@) == summaries_listed(summaries),
    decreases summaries.len(),
{
    if summaries.len() > 1 {
        lemma_summaries_listed(summaries.drop_last());
        assert(dash_items(summaries).drop_last() =~= dash_items(summaries.drop_last()));
        assert(join_seq(dash_items(summaries), "\n"@) =~= summaries_listed(summaries));
    }
}

/// The portrait of a chat. One that is kept is used. Otherwise it is made by the model
/// from the chat's last twenty summaries, all of which it is shown, and is kept; a chat
/// without summaries has the portrait of a new chat.
pub proof fn law_portrait_takes_its_course(
    kept: Seq<char>,
    summaries: Seq<Seq<char>>,
    answer: Seq<char>,
    outcome: DnaEventView,
)
    ensures
        dna_step(Seq::empty()) == DnaStepView::Get,
        dna_step(seq![DnaEventView::Kept(Some(kept))]) == DnaStepView::Done(kept),
        dna_step(seq![DnaEventView::Kept(None)]) == (DnaStepView::Read { limit: 20 }),
        ({
            let none = DnaEventView::Kept(None);
            let read = DnaEventView::Summaries(summaries);
            let said = DnaEventView::Answered(answer);
            &&& summaries.len() > 0 ==> {
                &&& dna_step(seq![none, read]) == DnaStepView::Ask(
                    seq![
                        text_message("system"@, DNA_PROMPT@),
                        text_message("user"@, summaries_listed(summaries)),
                    ],
                )
                &&& dna_step(seq![none, read, said]) == DnaStepView::Keep(trim_seq(answer))
                &&& dna_step(seq![none, read, said, outcome]) == DnaStepView::Done(
                    trim_seq(answer),
                )
            }
            &&& summaries.len() == 0 ==> {
                &&& dna_step(seq![none, read]) == DnaStepView::Keep("Новый чат без истории."@)
                &&& dna_step(seq![none, read, outcome]) == DnaStepView::Done(
                    "Новый чат без истории."@,
                )
            }
        }),
{
    lemma_summaries_listed(summaries);
}

/// Whatever fails while a portrait is made, the chat has the usual one.
pub proof fn law_portrait_never_fails(summaries: Seq<Seq<char>>)
    requires
        summaries.len() > 0,
    ensures
        ({
            let usual = DnaStepView::Done("Активный чат, где обсуждают разное."@);
            let none = DnaEventView::Kept(None);
            let read = DnaEventView::Summaries(summaries);
            &&& dna_step(seq![DnaEventView::Failed]) == usual
            &&& dna_step(seq![none, DnaEventView::Failed]) == usual
            &&& dna_step(seq![none, read, DnaEventView::Failed]) == usual
        }),
{
}

proof fn lemma_no_fault(seen: Seq<SeedEventView>, from: int)
    requires
        0 <= from <= seen.len(),
        forall|k: int| from <= k < seen.len() ==> (#[trigger] seen[k]) is Did,
    ensures
        first_fault(seen, from) is None,
    decreases seen.len() - from,
{
    if from < seen.len() {
        assert(seen[from] is Did);
        lemma_no_fault(seen, from + 1);
    }
}

proof fn lemma_fault(seen: Seq<SeedEventView>, from: int, at: int, e: ErrorView)
    requires
        0 <= from <= at < seen.len(),
        forall|k: int| from <= k < at ==> (#[trigger] seen[k]) is Did,
        seen[at] == SeedEventView::Failed(e),
    ensures
        first_fault(seen, from) == Some(e),
    decreases at - from,
{
    if from < at {
        assert(seen[from] is Did);
        lemma_fault(seen, from + 1, at, e);
    }
}

/// Every example is seeded, one after the other: its context is embedded, and then it is
/// written, context and reply, to the point that belongs to its context. After the last
/// one seeding is done.
pub proof fn law_every_example_is_seeded(
    shots: Seq<FewShotView>,
    i: int,
    seen: Seq<SeedEventView>,
)
    requires
        0 <= i <= shots.len(),
        forall|k: int| 0 <= k < seen.len() ==> (#[trigger] seen[k]) is Did,
    ensures
        i < shots.len() && seen.len() == 2 * i ==> seed_step(shots, seen) == SeedStepView::Embed(
            shots[i].context,
        ),
        i < shots.len() && seen.len() == 2 * i + 1 ==> seed_step(shots, seen) == (
        SeedStepView::Upsert {
            id: dns_uuid(encode_utf8(shots[i].context)),
            payload: seq![
                ("context"@, PayloadValueView::Text(shots[i].context)),
                ("reply"@, PayloadValueView::Text(shots[i].reply)),
            ],
        }),
        seen.len() >= 2 * shots.len() ==> seed_step(shots, seen) == SeedStepView::Done,
{
    lemma_no_fault(seen, 0);
}

/// The first failure ends the seeding and is what it reports.
pub proof fn law_seeding_stops_at_a_failure(
    shots: Seq<FewShotView>,
    seen: Seq<SeedEventView>,
    at: int,
    e: ErrorView,
)
    requires
        0 <= at < seen.len(),
        forall|k: int| 0 <= k < at ==> (#[trigger] seen[k]) is Did,
        seen[at] == SeedEventView::Failed(e),
    ensures
        seed_step(shots, seen) == SeedStepView::Fail(e),
{
    lemma_fault(seen, 0, at, e);
}

/// Every hit gives its example, in the order of the hits.
pub proof fn law_every_hit_gives_its_example(hits: Seq<SearchHitView>, hit: SearchHitView)
    ensures
        shots_of(Seq::empty()).len() == 0,
        shots_of(hits.push(hit)) == shots_of(hits).push(shot_of(hit)),
{
    assert(shots_of(hits.push(hit)) =~= shots_of(hits).push(shot_of(hit)));
}

} // verus!
