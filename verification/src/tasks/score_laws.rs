//! What the scoring of candidates promises as a whole.
use vstd::prelude::*;

use crate::error::ErrorView;
use crate::llm::client::text_message;
use crate::llm::prompts::score::SCORE_SYSTEM_PROMPT;
use crate::memory::events::{CandidateRowView, CATEGORIES};
use crate::tasks::score_events::{
    candidate_line, candidate_lines, context_line, context_lines, event_text, fed, fresh_score,
    good_from, kept_of, keeps, known_category, law_only_failing_ones_are_skipped, oldest, readable,
    score_payload, stored_by, ContextRowView, KeptView, ScoreActionView, ScoreEventView,
    ScoredEntryView, StoredEventView,
};
use crate::text::{concat_all, decimal, trim_seq};

verus! {

/// A score that makes its candidate an event: it is high enough, of one of the seven
/// kinds, and its number is that of a candidate.
pub open spec fn worth_keeping(e: ScoredEntryView, candidates: nat, score_min: u8) -> bool {
    &&& e.score >= score_min
    &&& e.i < candidates
    &&& {
        ||| e.category == "quote"@
        ||| e.category == "event"@
        ||| e.category == "meme"@
        ||| e.category == "conflict"@
        ||| e.category == "fact"@
        ||| e.category == "media"@
        ||| e.category == "banger"@
    }
}

proof fn lemma_keeps(e: ScoredEntryView, candidates: nat, score_min: u8)
    ensures
        keeps(e, candidates as int, score_min) == worth_keeping(e, candidates, score_min),
{
    assert(CATEGORIES@[0]@ == "quote"@);
    assert(CATEGORIES@[1]@ == "event"@);
    assert(CATEGORIES@[2]@ == "meme"@);
    assert(CATEGORIES@[3]@ == "conflict"@);
    assert(CATEGORIES@[4]@ == "fact"@);
    assert(CATEGORIES@[5]@ == "media"@);
    assert(CATEGORIES@[6]@ == "banger"@);
    if known_category(e.category) {
        let i = choose|i: int| 0 <= i < CATEGORIES@.len() && e.category == #[trigger] CATEGORIES@[i]@;
        assert(0 <= i < 7);
    }
}

/// Every score that is worth keeping, and no other, gives one event, in the order of the
/// scores: its message is the candidate with the score's number, its kind and its score
/// are those that the model gave.
pub proof fn law_good_entries_are_kept_as_scored(
    entries: Seq<ScoredEntryView>,
    candidates: Seq<CandidateRowView>,
    score_min: u8,
)
    ensures
        ({
            let good = entries.filter(
                |e: ScoredEntryView| worth_keeping(e, candidates.len(), score_min),
            );
            let kept = kept_of(entries, candidates, score_min);
            &&& kept.len() == good.len()
            &&& forall|k: int|
                0 <= k < good.len() ==> {
                    &&& (#[trigger] kept[k]).row == candidates[good[k].i as int]
                    &&& kept[k].category == good[k].category
                    &&& kept[k].score == good[k].score
                }
        }),
    decreases entries.len(),
{
    let p = |e: ScoredEntryView| worth_keeping(e, candidates.len(), score_min);
    reveal(Seq::filter);
    if entries.len() > 0 {
        law_good_entries_are_kept_as_scored(entries.drop_last(), candidates, score_min);
        lemma_keeps(entries.last(), candidates.len(), score_min);
        let before = entries.drop_last().filter(p);
        let kept_before = kept_of(entries.drop_last(), candidates, score_min);
        let good = entries.filter(p);
        let kept = kept_of(entries, candidates, score_min);
        assert forall|k: int| 0 <= k < good.len() implies {
            &&& (#[trigger] kept[k]).row == candidates[good[k].i as int]
            &&& kept[k].category == good[k].category
            &&& kept[k].score == good[k].score
        } by {
            if k < before.len() {
                assert(good[k] == before[k]);
                assert(kept[k] == kept_before[k]);
            }
        }
    }
}

/// What is stored of a score that is kept: the candidate with its number, the kind and
/// the score that the model gave, and the vector of the event's own text.
pub open spec fn event_of(
    e: ScoredEntryView,
    candidates: Seq<CandidateRowView>,
) -> StoredEventView {
    StoredEventView {
        source: candidates[e.i as int].sqlite_message_id,
        text: event_text(candidates[e.i as int]),
        embedded: event_text(candidates[e.i as int]),
        category: e.category,
        score: e.score,
    }
}

proof fn lemma_good_from_all(
    entries: Seq<ScoredEntryView>,
    kept: Seq<KeptView>,
    candidates: Seq<CandidateRowView>,
    embeds: spec_fn(Seq<char>) -> bool,
    stores: spec_fn(Seq<char>) -> bool,
    i: int,
)
    requires
        0 <= i <= kept.len(),
        kept.len() == entries.len(),
        forall|k: int|
            0 <= k < kept.len() ==> {
                &&& (#[trigger] kept[k]).row == candidates[entries[k].i as int]
                &&& kept[k].category == entries[k].category
                &&& kept[k].score == entries[k].score
            },
    ensures
        good_from(kept, embeds, stores, i) == entries.skip(i).filter(
            |e: ScoredEntryView|
                embeds(event_text(candidates[e.i as int])) && stores(
                    event_text(candidates[e.i as int]),
                ),
        ).map_values(|e: ScoredEntryView| event_of(e, candidates)),
    decreases kept.len() - i,
{
    let p = |e: ScoredEntryView|
        embeds(event_text(candidates[e.i as int])) && stores(event_text(candidates[e.i as int]));
    let f = |e: ScoredEntryView| event_of(e, candidates);
    if i == kept.len() {
        assert(entries.skip(i) =~= Seq::empty());
        reveal(Seq::filter);
    } else {
        lemma_good_from_all(entries, kept, candidates, embeds, stores, i + 1);
        let e = entries[i];
        let rest = entries.skip(i + 1);
        assert(entries.skip(i) =~= seq![e] + rest);
        Seq::filter_distributes_over_add(seq![e], rest, p);
        assert(kept[i].row == candidates[e.i as int]);
        assert(seq![e].drop_last() =~= Seq::empty());
        reveal_with_fuel(Seq::filter, 2);
        if p(e) {
            assert(seq![e].filter(p) =~= seq![e]);
            assert((seq![e] + rest.filter(p)).map_values(f) =~= seq![f(e)] + rest.filter(
                p,
            ).map_values(f));
        } else {
            assert(seq![e].filter(p) =~= Seq::empty());
            assert(seq![e].filter(p) + rest.filter(p) =~= rest.filter(p));
        }
    }
}

/// A scoring from the full buffer to the stored events: every score that is worth
/// keeping is stored as an event of its own candidate, in the order of the scores, with
/// the kind and the score that the model gave, unless its text cannot be embedded or it
/// cannot be stored; and nothing else is.
pub proof fn law_scoring_stores_what_is_worth_keeping(
    threshold: u32,
    score_min: u8,
    models: Seq<Seq<char>>,
    length: i64,
    raw: Seq<Seq<char>>,
    d: Seq<Option<CandidateRowView>>,
    rows: Seq<ContextRowView>,
    answer: Seq<char>,
    entries: Seq<ScoredEntryView>,
    embeds: spec_fn(Seq<char>) -> bool,
    stores: spec_fn(Seq<char>) -> bool,
    e: ErrorView,
    fuel: nat,
)
    requires
        threshold > 0,
        length >= threshold,
        raw.len() > 0,
        readable(d).len() > 0,
        models.len() > 0,
        trim_seq(answer).len() > 0,
        fuel > 2 * entries.len() + 1,
    ensures
        ({
            let events = seq![
                ScoreEventView::Length(length),
                ScoreEventView::Popped(raw),
                ScoreEventView::Decoded(d),
                ScoreEventView::Context(rows),
                ScoreEventView::Answered(answer),
                ScoreEventView::Parsed(entries),
            ];
            let candidates = readable(d);
            let after = fed(fresh_score(threshold, score_min, models), events);
            let good = entries.filter(
                |x: ScoredEntryView| worth_keeping(x, candidates.len(), score_min),
            );
            &&& after.1.len() == 6
            &&& after.1[0] == ScoreActionView::Pop
            &&& after.1[1] == ScoreActionView::Decode(raw)
            &&& after.1[2] == (ScoreActionView::Look { before: oldest(candidates), limit: 5 })
            &&& after.1[3] == (ScoreActionView::Ask {
                model: models[0],
                messages: seq![
                    text_message("system"@, SCORE_SYSTEM_PROMPT@),
                    text_message("user"@, score_payload(rows.reverse(), candidates)),
                ],
            })
            &&& after.1[4] == ScoreActionView::Parse(trim_seq(answer))
            &&& stored_by(after.0, after.1[5], Seq::empty(), embeds, stores, e, fuel)
                == good.filter(
                |x: ScoredEntryView|
                    embeds(event_text(candidates[x.i as int])) && stores(
                        event_text(candidates[x.i as int]),
                    ),
            ).map_values(|x: ScoredEntryView| event_of(x, candidates))
        }),
{
    let e0 = ScoreEventView::Length(length);
    let e1 = ScoreEventView::Popped(raw);
    let e2 = ScoreEventView::Decoded(d);
    let e3 = ScoreEventView::Context(rows);
    let e4 = ScoreEventView::Answered(answer);
    let e5 = ScoreEventView::Parsed(entries);
    let events = seq![e0, e1, e2, e3, e4, e5];
    let run0 = fresh_score(threshold, score_min, models);
    let candidates = readable(d);
    assert(events.drop_last() =~= seq![e0, e1, e2, e3, e4]);
    assert(seq![e0, e1, e2, e3, e4].drop_last() =~= seq![e0, e1, e2, e3]);
    assert(seq![e0, e1, e2, e3].drop_last() =~= seq![e0, e1, e2]);
    assert(seq![e0, e1, e2].drop_last() =~= seq![e0, e1]);
    assert(seq![e0, e1].drop_last() =~= seq![e0]);
    assert(seq![e0].drop_last() =~= Seq::empty());
    reveal_with_fuel(fed, 7);
    let parsing = fed(run0, seq![e0, e1, e2, e3, e4]).0;
    assert(parsing.candidates == candidates);
    assert(fed(run0, events).0 == parsing.select(entries).0);
    let kept = kept_of(entries, candidates, score_min);
    law_good_entries_are_kept_as_scored(entries, candidates, score_min);
    let good = entries.filter(
        |x: ScoredEntryView| worth_keeping(x, candidates.len(), score_min),
    );
    entries.lemma_filter_len(|x: ScoredEntryView| worth_keeping(x, candidates.len(), score_min));
    law_only_failing_ones_are_skipped(parsing, entries, embeds, stores, e, fuel);
    lemma_good_from_all(good, kept, candidates, embeds, stores, 0);
    assert(good.skip(0) =~= good);
}

/// The candidates that the model is shown and may keep are those that could be read,
/// all of them, in their order: adding one that can be read adds it at the end, adding
/// one that cannot changes nothing.
pub proof fn law_readable_candidates_line_up(d: Seq<Option<CandidateRowView>>, c: CandidateRowView)
    ensures
        readable(Seq::empty()).len() == 0,
        readable(d.push(Some(c))) == readable(d).push(c),
        readable(d.push(None)) == readable(d),
{
    assert(d.push(Some(c)).drop_last() =~= d);
    assert(d.push(None).drop_last() =~= d);
}

/// The context is looked for before all candidates: no candidate has a lower number than
/// the one that is asked for, and some candidate has it.
pub proof fn law_context_comes_before_the_oldest(cs: Seq<CandidateRowView>)
    requires
        cs.len() > 0,
    ensures
        forall|i: int| 0 <= i < cs.len() ==> oldest(cs) <= (#[trigger] cs[i]).sqlite_message_id,
        exists|i: int| 0 <= i < cs.len() && oldest(cs) == (#[trigger] cs[i]).sqlite_message_id,
    decreases cs.len(),
{
    let init = cs.drop_last();
    let last = cs[cs.len() - 1];
    if init.len() > 0 {
        law_context_comes_before_the_oldest(init);
        let j = choose|j: int|
            0 <= j < init.len() && oldest(init) == (#[trigger] init[j]).sqlite_message_id;
        assert(cs[j] == init[j]);
        assert forall|i: int| 0 <= i < cs.len() implies oldest(cs) <= (
        #[trigger] cs[i]).sqlite_message_id by {
            if i < init.len() {
                assert(cs[i] == init[i]);
            }
        }
        if last.sqlite_message_id < oldest(init) {
            assert(oldest(cs) == cs[cs.len() - 1].sqlite_message_id);
        } else {
            assert(oldest(cs) == cs[j].sqlite_message_id);
        }
    } else {
        reveal_with_fuel(oldest, 2);
        assert(oldest(cs) == cs[0].sqlite_message_id);
    }
}

/// The model is shown every candidate under its number: one more candidate adds one
/// more line at the end, which begins with its number, and changes none of the others.
pub proof fn law_payload_shows_every_candidate(
    context: Seq<ContextRowView>,
    candidates: Seq<CandidateRowView>,
    c: CandidateRowView,
)
    ensures
        ({
            let name = match c.username {
                Some(n) => n,
                None => "anon"@,
            };
            let media = match c.media_desc {
                Some(m) => " [медиа: "@ + trim_seq(m) + "]"@,
                None => ""@,
            };
            score_payload(context, candidates.push(c)) == score_payload(context, candidates)
                + "[i="@ + decimal(candidates.len() as int) + "] "@ + name + ": "@ + trim_seq(
                c.text,
            ) + media + "\n"@
        }),
{
    let all = candidate_lines(candidates.push(c));
    let line = candidate_line(candidates.len() as int, c);
    assert(all.drop_last() =~= candidate_lines(candidates));
    assert(all.last() == line);
    reveal_strlit("");
    let name = match c.username {
        Some(n) => n,
        None => "anon"@,
    };
    let media = match c.media_desc {
        Some(m) => " [медиа: "@ + trim_seq(m) + "]"@,
        None => ""@,
    };
    assert(line =~= "[i="@ + decimal(candidates.len() as int) + "] "@ + name + ": "@ + trim_seq(
        c.text,
    ) + media + "\n"@);
    assert(score_payload(context, candidates.push(c)) =~= score_payload(context, candidates)
        + line);
    assert(score_payload(context, candidates) + line =~= score_payload(context, candidates)
        + "[i="@ + decimal(candidates.len() as int) + "] "@ + name + ": "@ + trim_seq(c.text)
        + media + "\n"@);
}

/// The model is shown every message of the context, in order, before the candidates.
pub proof fn law_payload_shows_the_context(
    context: Seq<ContextRowView>,
    c: ContextRowView,
    candidates: Seq<CandidateRowView>,
)
    ensures
        score_payload(Seq::empty(), candidates) == "КАНДИДАТЫ:\n"@ + concat_all(
            candidate_lines(candidates),
        ),
        ({
            let name = match c.username {
                Some(n) => n,
                None => "anon"@,
            };
            let text = match c.text {
                Some(t) => trim_seq(t),
                None => trim_seq(""@),
            };
            let media = match c.media_description {
                Some(m) => " [медиа: "@ + trim_seq(m) + "]"@,
                None => ""@,
            };
            score_payload(context.push(c), candidates) == "КОНТЕКСТ (без оценки):\n"@
                + concat_all(context_lines(context)) + "- "@ + name + ": "@ + text + media
                + "\n\n"@ + score_payload(Seq::empty(), candidates)
        }),
{
    reveal_strlit("");
    reveal_strlit("\n");
    reveal_strlit("\n\n");
    assert(""@ =~= Seq::empty());
    assert("\n\n"@ =~= "\n"@ + "\n"@);
    assert(score_payload(Seq::empty(), candidates) =~= "КАНДИДАТЫ:\n"@ + concat_all(
        candidate_lines(candidates),
    ));
    let all = context_lines(context.push(c));
    assert(all.drop_last() =~= context_lines(context));
    assert(all.last() == context_line(c));
    let name = match c.username {
        Some(n) => n,
        None => "anon"@,
    };
    let text = match c.text {
        Some(t) => trim_seq(t),
        None => trim_seq(""@),
    };
    let media = match c.media_description {
        Some(m) => " [медиа: "@ + trim_seq(m) + "]"@,
        None => ""@,
    };
    assert(context_line(c) =~= "- "@ + name + ": "@ + text + media + "\n"@);
    assert(score_payload(context.push(c), candidates) =~= "КОНТЕКСТ (без оценки):\n"@
        + concat_all(context_lines(context)) + "- "@ + name + ": "@ + text + media + "\n\n"@
        + score_payload(Seq::empty(), candidates));
}

/// The text of an event says who said what: the name, the words and what the media
/// show, none of them changed but for white space at the ends.
pub proof fn law_event_text_says_who_said_what(c: CandidateRowView)
    ensures
        ({
            let name = match c.username {
                Some(n) => n,
                None => "anon"@,
            };
            let words = trim_seq(c.text);
            let n = name.len() as int;
            let w = words.len() as int;
            let t = event_text(c);
            &&& t.take(n) == name
            &&& t.subrange(n, n + 2) == seq![':', ' ']
            &&& t.subrange(n + 2, n + 2 + w) == words
            &&& c.media_desc is None ==> t.len() == n + 2 + w
            &&& c.media_desc matches Some(m) ==> t.skip(n + 2 + w)
                == " [медиа: "@ + trim_seq(m) + "]"@
        }),
{
    reveal_strlit(": ");
    let name = match c.username {
        Some(n) => n,
        None => "anon"@,
    };
    let words = trim_seq(c.text);
    let n = name.len() as int;
    let w = words.len() as int;
    let t = event_text(c);
    assert(t.take(n) =~= name);
    assert(t.subrange(n, n + 2) =~= seq![':', ' ']);
    assert(t.subrange(n + 2, n + 2 + w) =~= words);
    if c.media_desc is Some {
        assert(t.skip(n + 2 + w) =~= " [медиа: "@ + trim_seq(
            c.media_desc->0,
        ) + "]"@);
    }
}

} // verus!
