//! What the extraction of facts promises as a whole.
use vstd::prelude::*;

use crate::error::ErrorView;
use crate::float_bits::FloatBits;
use crate::llm::client::text_message;
use crate::llm::prompts::facts::FACTS_PROMPT;
use crate::storage::qdrant::{PayloadValueView, SearchHitView, SearchQueryView};
use crate::tasks::extract_facts::{
    fact_payload, fresh_facts, known_already, user_line, user_lines, user_messages,
    ExtractedFactView, FactsActionView, FactsEventView, FactsRunView, UserMessageRowView,
};
use crate::text::{concat_all, decimal, lemma_concat_front, trim_seq};

verus! {

/// A fact that was stored: its text, its kind, and the text whose vector it was stored
/// with.
#[verifier::ext_equal]
pub struct StoredFactView {
    pub fact: Seq<char>,
    pub fact_type: Seq<char>,
    pub embedded: Seq<char>,
}

/// The facts that a run stores in its next `fuel` steps, in a world where `embeds` tells
/// which texts can be embedded, `hits` what a search with the vector of a text gives, if
/// it succeeds, and everything is stored; `vector` is the text that was embedded last.
pub open spec fn facts_stored(
    run: FactsRunView,
    action: FactsActionView,
    vector: Seq<char>,
    embeds: spec_fn(Seq<char>) -> bool,
    hits: spec_fn(SearchQueryView, Seq<char>) -> Option<Seq<SearchHitView>>,
    e: ErrorView,
    fuel: nat,
) -> Seq<StoredFactView>
    decreases fuel,
{
    if fuel == 0 {
        Seq::empty()
    } else {
        let left = (fuel - 1) as nat;
        match action {
            FactsActionView::Embed(t) => {
                let next = if embeds(t) {
                    run.on(FactsEventView::Did)
                } else {
                    run.on(FactsEventView::Failed(e))
                };
                facts_stored(next.0, next.1, t, embeds, hits, e, left)
            },
            FactsActionView::Search(q) => {
                let next = match hits(q, vector) {
                    Some(h) => run.on(FactsEventView::Hits(h)),
                    None => run.on(FactsEventView::Failed(e)),
                };
                facts_stored(next.0, next.1, vector, embeds, hits, e, left)
            },
            FactsActionView::Store { fact, fact_type } => {
                let next = run.on(FactsEventView::Did);
                seq![StoredFactView { fact, fact_type, embedded: vector }] + facts_stored(
                    next.0,
                    next.1,
                    vector,
                    embeds,
                    hits,
                    e,
                    left,
                )
            },
            _ => Seq::empty(),
        }
    }
}

/// The search that a new fact is held against: the three closest facts about the same
/// user in the same chat.
pub open spec fn closest_facts(chat_id: i64, user_id: i64) -> SearchQueryView {
    SearchQueryView {
        collection: "user_facts"@,
        limit: 3,
        must: seq![("chat_id"@, chat_id), ("user_id"@, user_id)],
    }
}

/// The fact is to be stored: it is not blank, it can be embedded, and no known fact is
/// closer to it than `dedup`; a search that fails shows no known fact.
pub open spec fn is_news(
    f: ExtractedFactView,
    query: SearchQueryView,
    dedup: FloatBits,
    embeds: spec_fn(Seq<char>) -> bool,
    hits: spec_fn(SearchQueryView, Seq<char>) -> Option<Seq<SearchHitView>>,
) -> bool {
    &&& trim_seq(f.fact).len() > 0
    &&& embeds(f.fact)
    &&& hits(query, f.fact) matches Some(h) ==> forall|i: int|
        0 <= i < h.len() ==> !(#[trigger] h[i]).score.above(dedup)
}

/// The fact as it is stored: with its kind, or the kind "other" where it has none.
pub open spec fn as_stored(f: ExtractedFactView) -> StoredFactView {
    StoredFactView {
        fact: f.fact,
        fact_type: match f.fact_type {
            Some(t) => t,
            None => "other"@,
        },
        embedded: f.fact,
    }
}

proof fn lemma_stores_from(
    run: FactsRunView,
    before: FactsRunView,
    from: int,
    vector: Seq<char>,
    embeds: spec_fn(Seq<char>) -> bool,
    hits: spec_fn(SearchQueryView, Seq<char>) -> Option<Seq<SearchHitView>>,
    e: ErrorView,
    fuel: nat,
)
    requires
        0 <= from <= before.facts.len(),
        run == before.resume(from).0,
        fuel > 3 * (before.facts.len() - from),
    ensures
        facts_stored(run, before.resume(from).1, vector, embeds, hits, e, fuel)
            == before.facts.skip(from).filter(
            |f: ExtractedFactView|
                is_news(
                    f,
                    closest_facts(before.chat_id, before.user_id),
                    before.dedup,
                    embeds,
                    hits,
                ),
        ).map_values(|f: ExtractedFactView| as_stored(f)),
    decreases before.facts.len() - from,
{
    let facts = before.facts;
    let query = closest_facts(before.chat_id, before.user_id);
    let p = |f: ExtractedFactView| is_news(f, query, before.dedup, embeds, hits);
    let m = |f: ExtractedFactView| as_stored(f);
    if from == facts.len() {
        assert(facts.skip(from) =~= Seq::empty());
        reveal(Seq::filter);
    } else {
        let f = facts[from];
        let rest = facts.skip(from + 1);
        assert(facts.skip(from) =~= seq![f] + rest);
        Seq::filter_distributes_over_add(seq![f], rest, p);
        assert(seq![f].drop_last() =~= Seq::empty());
        reveal_with_fuel(Seq::filter, 2);
        let tail = rest.filter(p).map_values(m);
        if trim_seq(f.fact).len() == 0 {
            lemma_stores_from(run, before, from + 1, vector, embeds, hits, e, fuel);
            assert(seq![f].filter(p) + rest.filter(p) =~= rest.filter(p));
        } else if !embeds(f.fact) {
            let next = run.on(FactsEventView::Failed(e));
            lemma_stores_from(
                next.0,
                run,
                from + 1,
                f.fact,
                embeds,
                hits,
                e,
                (fuel - 1) as nat,
            );
            assert(seq![f].filter(p) + rest.filter(p) =~= rest.filter(p));
        } else {
            let searching = run.on(FactsEventView::Did);
            assert(searching.1 == FactsActionView::Search(query));
            let found = match hits(query, f.fact) {
                Some(h) => h,
                None => Seq::empty(),
            };
            let judged = match hits(query, f.fact) {
                Some(h) => searching.0.on(FactsEventView::Hits(h)),
                None => searching.0.on(FactsEventView::Failed(e)),
            };
            assert(judged == searching.0.judge(found));
            reveal_with_fuel(facts_stored, 4);
            if known_already(found, before.dedup) {
                lemma_stores_from(
                    judged.0,
                    searching.0,
                    from + 1,
                    f.fact,
                    embeds,
                    hits,
                    e,
                    (fuel - 2) as nat,
                );
                assert(!p(f));
                assert(seq![f].filter(p) + rest.filter(p) =~= rest.filter(p));
            } else {
                let stored = judged.0.on(FactsEventView::Did);
                lemma_stores_from(
                    stored.0,
                    judged.0,
                    from + 1,
                    f.fact,
                    embeds,
                    hits,
                    e,
                    (fuel - 3) as nat,
                );
                assert(p(f)) by {
                    if hits(query, f.fact) is Some {
                        let h = hits(query, f.fact)->0;
                        assert forall|i: int| 0 <= i < h.len() implies !(
                        #[trigger] h[i]).score.above(before.dedup) by {
                            if h[i].score.above(before.dedup) {
                                assert(known_already(h, before.dedup));
                            }
                        }
                    }
                }
                assert(seq![f].filter(p) =~= seq![f]);
                assert((seq![f] + rest.filter(p)).map_values(m) =~= seq![m(f)] + tail);
            }
        }
    }
}

/// From the answer on, an extraction stores exactly the facts of the answer that are not
/// blank, can be embedded and are not known yet, all of them and in their order, each
/// with the kind that the model gave and with its own vector.
pub proof fn law_every_new_fact_is_stored(
    run: FactsRunView,
    facts: Seq<ExtractedFactView>,
    embeds: spec_fn(Seq<char>) -> bool,
    hits: spec_fn(SearchQueryView, Seq<char>) -> Option<Seq<SearchHitView>>,
    e: ErrorView,
    fuel: nat,
)
    requires
        run.phase is Parsing || run.phase is Reparsing,
        fuel > 3 * facts.len(),
    ensures
        ({
            let next = run.on(FactsEventView::Parsed(facts));
            facts_stored(next.0, next.1, Seq::empty(), embeds, hits, e, fuel) == facts.filter(
                |f: ExtractedFactView|
                    is_news(
                        f,
                        closest_facts(run.chat_id, run.user_id),
                        run.dedup,
                        embeds,
                        hits,
                    ),
            ).map_values(|f: ExtractedFactView| as_stored(f))
        }),
{
    let before = FactsRunView { facts, ..run };
    lemma_stores_from(before.resume(0).0, before, 0, Seq::empty(), embeds, hits, e, fuel);
    assert(facts.skip(0) =~= facts);
}

/// An extraction from the count to the stored facts. Where the count is reached it is
/// started anew, the user's messages are read and shown to the model under the user's
/// name, and what is new in its answer is stored.
pub proof fn law_extraction_takes_its_course(
    chat_id: i64,
    user_id: i64,
    threshold: u32,
    lookback: u32,
    model: Seq<char>,
    dedup: FloatBits,
    count: i64,
    rows: Seq<UserMessageRowView>,
    name: Option<Seq<char>>,
    answer: Seq<char>,
    facts: Seq<ExtractedFactView>,
    embeds: spec_fn(Seq<char>) -> bool,
    hits: spec_fn(SearchQueryView, Seq<char>) -> Option<Seq<SearchHitView>>,
    e: ErrorView,
    fuel: nat,
)
    requires
        threshold > 0,
        count >= threshold,
        rows.len() > 0,
        fuel > 3 * facts.len(),
    ensures
        ({
            let r0 = fresh_facts(chat_id, user_id, threshold, lookback, model, dedup);
            let r1 = r0.on(FactsEventView::Counted(count));
            let r2 = r1.0.on(FactsEventView::Did);
            let r3 = r2.0.on(FactsEventView::Messages(rows));
            let r4 = r3.0.on(FactsEventView::Name(name));
            let r5 = r4.0.on(FactsEventView::Answered(answer));
            let r6 = r5.0.on(FactsEventView::Parsed(facts));
            let shown = match name {
                Some(n) => n,
                None => "uid:"@ + decimal(user_id as int),
            };
            &&& r1.1 == FactsActionView::Reset
            &&& r2.1 == (FactsActionView::Read { limit: lookback as i64 })
            &&& r3.1 == FactsActionView::Name
            &&& r4.1 == (FactsActionView::Ask {
                model,
                messages: seq![
                    text_message("system"@, FACTS_PROMPT@),
                    text_message("user"@, user_messages(shown, rows)),
                ],
            })
            &&& r5.1 == FactsActionView::Parse(trim_seq(answer))
            &&& facts_stored(r6.0, r6.1, Seq::empty(), embeds, hits, e, fuel) == facts.filter(
                |f: ExtractedFactView|
                    is_news(f, closest_facts(chat_id, user_id), dedup, embeds, hits),
            ).map_values(|f: ExtractedFactView| as_stored(f))
        }),
{
    let r0 = fresh_facts(chat_id, user_id, threshold, lookback, model, dedup);
    let r1 = r0.on(FactsEventView::Counted(count)).0;
    let r2 = r1.on(FactsEventView::Did).0;
    let r3 = r2.on(FactsEventView::Messages(rows)).0;
    let r4 = r3.on(FactsEventView::Name(name)).0;
    let r5 = r4.on(FactsEventView::Answered(answer)).0;
    law_every_new_fact_is_stored(r5, facts, embeds, hits, e, fuel);
}

/// Below the threshold nothing happens: the count is all.
pub proof fn law_extraction_waits_for_the_count(
    chat_id: i64,
    user_id: i64,
    threshold: u32,
    lookback: u32,
    model: Seq<char>,
    dedup: FloatBits,
    count: i64,
)
    requires
        threshold > 0,
        count < threshold,
    ensures
        fresh_facts(chat_id, user_id, threshold, lookback, model, dedup).on(
            FactsEventView::Counted(count),
        ).1 == FactsActionView::Done,
{
}

/// The model is shown every message of the user, the oldest first: an older message adds
/// its line before all the others and changes none of them. A message without text and
/// description adds nothing.
pub proof fn law_every_message_is_shown(
    username: Seq<char>,
    rows: Seq<UserMessageRowView>,
    older: UserMessageRowView,
)
    ensures
        user_messages(username, Seq::empty()) == "Сообщения пользователя @"@ + username
            + ":\n\n"@,
        ({
            let text = match older.text {
                Some(t) => t,
                None => ""@,
            };
            let line = match older.media_description {
                Some(m) => text + " ["@ + m + "]\n"@,
                None => if text.len() == 0 {
                    ""@
                } else {
                    text + "\n"@
                },
            };
            user_messages(username, rows.push(older)) == "Сообщения пользователя @"@ + username
                + ":\n\n"@ + line + concat_all(user_lines(rows))
        }),
{
    let head = "Сообщения пользователя @"@ + username + ":\n\n"@;
    assert(user_lines(Seq::empty()) =~= Seq::empty());
    assert(user_messages(username, Seq::empty()) =~= head);
    let all = user_lines(rows.push(older));
    assert(all =~= seq![user_line(older)] + user_lines(rows));
    lemma_concat_front(user_line(older), user_lines(rows));
    assert(head + (user_line(older) + concat_all(user_lines(rows))) =~= head + user_line(older)
        + concat_all(user_lines(rows)));
}

/// A fact's point holds the user and the chat by which it is found again, and its kind.
pub proof fn law_fact_point_holds_what_it_is_found_by(
    chat_id: i64,
    user_id: i64,
    fact_type: Seq<char>,
)
    ensures
        ({
            let p = fact_payload(chat_id, user_id, fact_type);
            &&& p.len() == 3
            &&& p.contains(("user_id"@, PayloadValueView::Int(user_id)))
            &&& p.contains(("chat_id"@, PayloadValueView::Int(chat_id)))
            &&& p.contains(("fact_type"@, PayloadValueView::Text(fact_type)))
        }),
{
    let p = fact_payload(chat_id, user_id, fact_type);
    assert(p[0] == ("user_id"@, PayloadValueView::Int(user_id)));
    assert(p[1] == ("chat_id"@, PayloadValueView::Int(chat_id)));
    assert(p[2] == ("fact_type"@, PayloadValueView::Text(fact_type)));
}

/// A failure of the count, the reset, the reading, the name, the model or the store is
/// reported and ends the extraction; an answer that cannot be read either way stores
/// nothing.
pub proof fn law_extraction_failures(run: FactsRunView, e: ErrorView)
    ensures
        !(run.phase is Embedding) && !(run.phase is Searching) ==> run.on(
            FactsEventView::Failed(e),
        ).1 == FactsActionView::Fail(e),
        run.phase is Reading ==> run.on(FactsEventView::Messages(Seq::empty())).1
            == FactsActionView::Done,
        run.phase is Parsing ==> run.on(FactsEventView::Unreadable).0.on(
            FactsEventView::Unreadable,
        ).1 == FactsActionView::Done,
{
}

} // verus!
