//! The background tasks.
use ragtg_bot::error::Error;
use ragtg_bot::float_bits::FloatBits;
use ragtg_bot::llm::client::{Message, MessageContent};
use ragtg_bot::llm::prompts::facts::FACTS_PROMPT;
use ragtg_bot::llm::prompts::score::SCORE_SYSTEM_PROMPT;
use ragtg_bot::llm::prompts::summary::{DNA_PROMPT, SUMMARY_PROMPT};
use ragtg_bot::memory::events::{CandidateRow, CATEGORIES};
use ragtg_bot::storage::qdrant::{payload_int, payload_text, SearchHit};
use ragtg_bot::tasks::chat_dna::{
    get_or_synthesize_dna, DnaEvent, DnaStep, DNA_DEFAULT, DNA_NEW_CHAT,
};
use ragtg_bot::tasks::dedup_events::{
    dedup_chat, duplicates, group_by_category, run_dedup, Closeness, DedupAction, DedupEvent,
    EventRow, RoundEvent, RoundStep,
};
use ragtg_bot::tasks::extract_facts::{
    fact_point, format_user_messages, is_duplicate, maybe_extract_facts, ExtractedFact,
    FactsAction, FactsEvent, UserMessageRow,
};
use ragtg_bot::tasks::score_events::{
    format_event_text, format_score_payload, is_valid_category, keep, maybe_score, ContextRow,
    ScoreAction, ScoreEvent, ScoredEntry,
};
use ragtg_bot::tasks::summarize::{
    format_messages_for_summary, maybe_summarize, summary_point, MessageRow, SummaryAction,
    SummaryEvent,
};
use ragtg_bot::tasks::{extract_facts, score_events};

fn s(t: &str) -> String {
    t.to_string()
}

fn bits(x: f32) -> FloatBits {
    FloatBits { bits: x.to_bits() }
}

fn text_of(m: &Message) -> &str {
    match &m.content {
        MessageContent::Text(t) => t,
        _ => panic!("no text"),
    }
}

fn failed() -> Error {
    Error::Other(s("x"))
}

fn event(id: i64, score: u8, category: &str, at: i64) -> EventRow {
    EventRow::from_columns(id, format!("p{id}"), score as i64, s(category), at)
}

fn candidate(id: i64, name: Option<&str>, text: &str, desc: Option<&str>) -> CandidateRow {
    CandidateRow {
        sqlite_message_id: id,
        user_id: 1,
        username: name.map(s),
        text: s(text),
        media_desc: desc.map(s),
    }
}

fn scored(i: u32, score: u8, category: &str) -> ScoredEntry {
    ScoredEntry { i, score, category: s(category) }
}

fn ids(rows: &[EventRow]) -> Vec<i64> {
    rows.iter().map(|r| r.sqlite_id).collect()
}

fn all_close(n: usize, x: f32) -> Closeness {
    (0..n).map(|_| Some(vec![bits(x); n])).collect()
}

#[test]
fn of_two_duplicates_the_better_stays() {
    let rows = vec![event(1, 5, "a", 10), event(2, 7, "a", 20), event(3, 7, "a", 5)];
    let gone = duplicates(&rows, &all_close(3, 0.97), bits(0.95));
    assert_eq!(ids(&gone), vec![1, 2]);
    let none: Vec<i64> = vec![];
    assert_eq!(ids(&duplicates(&rows, &all_close(3, 0.95), bits(0.95))), none);
    let blind: Closeness = vec![None, None, None];
    assert_eq!(ids(&duplicates(&rows, &blind, bits(0.95))), none);
    let equal = vec![event(1, 5, "a", 10), event(2, 5, "a", 10)];
    assert_eq!(ids(&duplicates(&equal, &all_close(2, 1.0), bits(0.95))), vec![1]);
    let older = vec![event(1, 5, "a", 9), event(2, 5, "a", 10)];
    assert_eq!(ids(&duplicates(&older, &all_close(2, 1.0), bits(0.95))), vec![2]);
}

#[test]
fn one_of_many_duplicates_stays() {
    for n in 1..6usize {
        let rows: Vec<EventRow> = (0..n).map(|i| event(i as i64, 5, "a", i as i64 % 3)).collect();
        assert_eq!(duplicates(&rows, &all_close(n, 0.99), bits(0.95)).len(), n - 1);
    }
}

#[test]
fn groups_keep_all_events() {
    let rows = vec![event(1, 5, "b", 1), event(2, 5, "a", 1), event(3, 5, "b", 1)];
    let groups = group_by_category(&rows);
    let got: Vec<Vec<i64>> = groups.iter().map(|g| ids(g)).collect();
    assert_eq!(got, vec![vec![1, 3], vec![2]]);
    assert_eq!(EventRow::from_columns(1, s("p"), 263, s("a"), 1).score, 7);
    assert_eq!(EventRow::from_columns(1, s("p"), -1, s("a"), 1).score, 255);
}

#[test]
fn duplicates_are_removed_row_first() {
    let rows = vec![event(1, 5, "b", 1), event(2, 5, "a", 1), event(3, 6, "b", 1)];
    let (mut run, a) = dedup_chat(&rows, bits(0.95));
    assert!(matches!(a, DedupAction::Compare(p) if p == vec!["p1", "p3"]));
    let a = run.advance(DedupEvent::Compared(all_close(2, 0.99)));
    assert!(matches!(a, DedupAction::DeleteRow(1)));
    assert!(matches!(run.advance(DedupEvent::Deleted), DedupAction::DeletePoint(p) if p == "p1"));
    assert!(matches!(run.advance(DedupEvent::Deleted), DedupAction::Done));
    let (mut run, _) = dedup_chat(&rows, bits(0.95));
    assert!(matches!(run.advance(DedupEvent::NoVectors), DedupAction::Done));
    let (mut run, _) = dedup_chat(&rows, bits(0.95));
    run.advance(DedupEvent::Compared(all_close(2, 0.99)));
    assert!(matches!(run.advance(DedupEvent::Failed(failed())), DedupAction::Fail(Error::Other(_))));
    assert!(matches!(dedup_chat(&vec![], bits(0.95)).1, DedupAction::Done));
}

#[test]
fn categories_are_those_listed() {
    assert!(CATEGORIES.iter().all(|c| is_valid_category(c)));
    assert!(!is_valid_category("") && !is_valid_category("nonsense"));
}

#[test]
fn scoring_prompt() {
    let context = vec![
        ContextRow { username: None, text: Some(s(" раз ")), media_description: None },
        ContextRow { username: Some(s("ann")), text: None, media_description: Some(s("кот ")) },
    ];
    let candidates = vec![candidate(1, Some("bob"), " да ", None), candidate(2, None, "", Some("пёс"))];
    assert_eq!(
        format_score_payload(&context, &candidates),
        "КОНТЕКСТ (без оценки):\n- anon: раз\n- ann:  [медиа: кот]\n\nКАНДИДАТЫ:\n[i=0] bob: да\n[i=1] anon:  [медиа: пёс]\n"
    );
    assert_eq!(format_score_payload(&vec![], &vec![]), "КАНДИДАТЫ:\n");
    assert_eq!(format_event_text(&candidates[0]), "bob: да");
    assert_eq!(format_event_text(&candidates[1]), "anon:  [медиа: пёс]");
}

#[test]
fn fences_are_taken_off() {
    for strip in [score_events::strip_code_block, extract_facts::strip_code_block] {
        assert_eq!(strip(" [1] "), "[1]");
        assert_eq!(strip("```json[1]```"), "[1]");
        assert_eq!(strip("```[1]```"), "[1]");
        assert_eq!(strip("```json [1]"), "[1]");
    }
    for strip in [score_events::strip_code_block, extract_facts::strip_code_block] {
        for body in ["[1]", "", "{ \"a\": [] }", "`x`"] {
            for opening in ["```json", "```"] {
                let block = format!(" \n\t{opening}\n{body}\n``` \n");
                assert_eq!(strip(&block).trim(), body);
            }
            assert_eq!(strip(&format!("\n {body} \t")), body);
        }
    }
    assert_eq!(score_events::strip_code_block("```json\n[1]\n```"), "[1]");
    assert_eq!(extract_facts::strip_code_block("```json\n[1]\n```"), "[1]\n");
}

#[test]
fn only_good_candidates_become_events() {
    let cs = vec![candidate(1, None, "a", None), candidate(2, None, "b", None)];
    let c = CATEGORIES[0];
    let entries =
        vec![scored(1, 7, c), scored(0, 6, c), scored(2, 9, c), scored(0, 9, "nonsense"), scored(1, 10, c)];
    let kept = keep(&entries, &cs, 7);
    let got: Vec<(i64, u8)> = kept.iter().map(|k| (k.row.sqlite_message_id, k.score)).collect();
    assert_eq!(got, vec![(2, 7), (2, 10)]);
    assert_eq!(kept[0].category, c);
}

#[test]
fn scoring_goes_step_by_step() {
    let (mut run, a) = maybe_score(2, 7, vec![s("m1"), s("m2")]);
    assert!(matches!(a, ScoreAction::Measure));
    assert!(matches!(run.advance(ScoreEvent::Length(2)), ScoreAction::Pop));
    let raw = vec![s("r1"), s("r2"), s("r3")];
    let a = run.advance(ScoreEvent::Popped(raw.clone()));
    assert!(matches!(a, ScoreAction::Decode(v) if v == raw));
    let a = run.advance(ScoreEvent::Decoded(vec![
        Some(candidate(9, Some("ann"), "раз", None)),
        None,
        Some(candidate(4, None, "два", None)),
    ]));
    assert!(matches!(a, ScoreAction::Look { before: 4, limit: 5 }));
    let later = ContextRow { username: None, text: Some(s("b")), media_description: None };
    let earlier = ContextRow { username: None, text: Some(s("a")), media_description: None };
    match run.advance(ScoreEvent::Context(vec![later, earlier])) {
        ScoreAction::Ask { model, messages } => {
            assert_eq!(model, "m1");
            assert_eq!(text_of(&messages[0]), SCORE_SYSTEM_PROMPT);
            assert_eq!(
                text_of(&messages[1]),
                "КОНТЕКСТ (без оценки):\n- anon: a\n- anon: b\n\nКАНДИДАТЫ:\n[i=0] ann: раз\n[i=1] anon: два\n"
            );
        }
        _ => panic!("nobody asked"),
    }
    let a = run.advance(ScoreEvent::Failed(failed()));
    assert!(matches!(a, ScoreAction::Ask { model, .. } if model == "m2"));
    let a = run.advance(ScoreEvent::Answered(s(" ```json\n[]\n``` ")));
    assert!(matches!(a, ScoreAction::Parse(t) if t == "```json\n[]\n```"));
    let a = run.advance(ScoreEvent::Failed(failed()));
    assert!(matches!(a, ScoreAction::Parse(t) if t == "[]"));
    let c = CATEGORIES[0];
    let a = run.advance(ScoreEvent::Parsed(vec![scored(0, 8, c), scored(1, 9, c)]));
    assert!(matches!(a, ScoreAction::Embed(v) if v == vec!["ann: раз", "anon: два"]));
    assert_eq!(run.dropped(), 0);
    let a = run.advance(ScoreEvent::Vectors(2));
    assert!(matches!(a, ScoreAction::Store { index: 0, source: 9, text, category, score: 8 }
        if text == "ann: раз" && category == c));
    let a = run.advance(ScoreEvent::Failed(failed()));
    assert!(matches!(a, ScoreAction::Store { index: 1, source: 4, score: 9, .. }));
    assert!(matches!(run.advance(ScoreEvent::Did), ScoreAction::Done));
}

#[test]
fn a_poor_batch_is_dropped() {
    let (mut run, _) = maybe_score(1, 7, vec![s("m1")]);
    run.advance(ScoreEvent::Length(1));
    run.advance(ScoreEvent::Popped(vec![s("r1")]));
    run.advance(ScoreEvent::Decoded(vec![Some(candidate(9, None, "раз", None))]));
    run.advance(ScoreEvent::Context(vec![]));
    run.advance(ScoreEvent::Answered(s("[]")));
    let a = run.advance(ScoreEvent::Parsed(vec![scored(0, 3, CATEGORIES[0])]));
    assert!(matches!(a, ScoreAction::Done));
    assert_eq!(run.dropped(), 1);
}

#[test]
fn failed_scoring_puts_the_candidates_back() {
    let (mut run, _) = maybe_score(1, 7, vec![s("m1"), s("m2")]);
    run.advance(ScoreEvent::Length(1));
    run.advance(ScoreEvent::Popped(vec![s("r1"), s("garbage"), s("r2")]));
    run.advance(ScoreEvent::Decoded(vec![
        Some(candidate(9, None, "раз", None)),
        None,
        Some(candidate(10, None, "два", None)),
    ]));
    let a = run.advance(ScoreEvent::Failed(failed()));
    assert!(matches!(a, ScoreAction::Ask { .. }));
    run.advance(ScoreEvent::Answered(s(" ")));
    let a = run.advance(ScoreEvent::Failed(failed()));
    assert!(matches!(a, ScoreAction::Requeue(v) if v == vec!["r1", "r2"]));
    assert!(matches!(run.advance(ScoreEvent::Did), ScoreAction::Done));
}

#[test]
fn only_what_cannot_be_embedded_is_skipped() {
    let (mut run, _) = maybe_score(1, 7, vec![s("m1")]);
    run.advance(ScoreEvent::Length(3));
    run.advance(ScoreEvent::Popped(vec![s("r1"), s("r2"), s("r3")]));
    run.advance(ScoreEvent::Decoded(vec![
        Some(candidate(1, None, "раз", None)),
        Some(candidate(2, None, "два", None)),
        Some(candidate(3, None, "три", None)),
    ]));
    run.advance(ScoreEvent::Context(vec![]));
    run.advance(ScoreEvent::Answered(s("[]")));
    let c = CATEGORIES[0];
    let a = run.advance(ScoreEvent::Parsed(vec![scored(0, 7, c), scored(1, 8, c), scored(2, 9, c)]));
    assert!(matches!(a, ScoreAction::Embed(v) if v.len() == 3));
    let a = run.advance(ScoreEvent::Failed(failed()));
    assert!(matches!(a, ScoreAction::Embed(v) if v == vec!["anon: раз"]));
    let a = run.advance(ScoreEvent::Vectors(1));
    assert!(matches!(a, ScoreAction::Store { index: 0, source: 1, text, score: 7, .. }
        if text == "anon: раз"));
    let a = run.advance(ScoreEvent::Did);
    assert!(matches!(a, ScoreAction::Embed(v) if v == vec!["anon: два"]));
    let a = run.advance(ScoreEvent::Failed(failed()));
    assert!(matches!(a, ScoreAction::Embed(v) if v == vec!["anon: три"]));
    let a = run.advance(ScoreEvent::Vectors(1));
    assert!(matches!(a, ScoreAction::Store { index: 0, source: 3, score: 9, .. }));
    assert!(matches!(run.advance(ScoreEvent::Failed(failed())), ScoreAction::Done));
}

#[test]
fn a_wrong_number_of_vectors_drops_the_batch() {
    let (mut run, _) = maybe_score(1, 7, vec![s("m1")]);
    run.advance(ScoreEvent::Length(1));
    run.advance(ScoreEvent::Popped(vec![s("r1")]));
    run.advance(ScoreEvent::Decoded(vec![Some(candidate(1, None, "раз", None))]));
    run.advance(ScoreEvent::Context(vec![]));
    run.advance(ScoreEvent::Answered(s("[]")));
    run.advance(ScoreEvent::Parsed(vec![scored(0, 7, CATEGORIES[0])]));
    let a = run.advance(ScoreEvent::Vectors(2));
    assert!(matches!(a, ScoreAction::Done));
}

#[test]
fn scoring_ends_early() {
    assert!(matches!(maybe_score(0, 7, vec![]).1, ScoreAction::Done));
    let (mut run, _) = maybe_score(3, 7, vec![]);
    assert!(matches!(run.advance(ScoreEvent::Length(2)), ScoreAction::Done));
    let (mut run, _) = maybe_score(3, 7, vec![]);
    let a = run.advance(ScoreEvent::Failed(failed()));
    assert!(matches!(a, ScoreAction::Fail(Error::Other(_))));
    let (mut run, _) = maybe_score(3, 7, vec![]);
    run.advance(ScoreEvent::Length(3));
    assert!(matches!(run.advance(ScoreEvent::Popped(vec![])), ScoreAction::Done));
}

#[test]
fn facts_prompt() {
    let rows = vec![
        UserMessageRow { text: Some(s("поздно")), media_description: None },
        UserMessageRow { text: None, media_description: None },
        UserMessageRow { text: None, media_description: Some(s("кот")) },
        UserMessageRow { text: Some(s("рано")), media_description: Some(s("пёс")) },
    ];
    assert_eq!(
        format_user_messages("ann", &rows),
        "Сообщения пользователя @ann:\n\nрано [пёс]\n [кот]\nпоздно\n"
    );
}

#[test]
fn facts_are_stored_where_new() {
    let (mut run, a) = maybe_extract_facts(-5, 7, 2, 20, "m", bits(0.9));
    assert!(matches!(a, FactsAction::Count));
    assert!(matches!(run.advance(FactsEvent::Counted(2)), FactsAction::Reset));
    assert!(matches!(run.advance(FactsEvent::Did), FactsAction::Read { limit: 20 }));
    let rows = vec![UserMessageRow { text: Some(s("чай")), media_description: None }];
    assert!(matches!(run.advance(FactsEvent::Messages(rows)), FactsAction::Name));
    match run.advance(FactsEvent::Name(None)) {
        FactsAction::Ask { model, messages } => {
            assert_eq!(model, "m");
            assert_eq!(text_of(&messages[0]), FACTS_PROMPT);
            assert_eq!(text_of(&messages[1]), "Сообщения пользователя @uid:7:\n\nчай\n");
        }
        _ => panic!("nobody asked"),
    }
    let a = run.advance(FactsEvent::Answered(s(" ```[]``` ")));
    assert!(matches!(a, FactsAction::Parse(t) if t == "```[]```"));
    assert!(matches!(run.advance(FactsEvent::Unreadable), FactsAction::Parse(t) if t == "[]"));
    let fact = |t: &str, k: Option<&str>| ExtractedFact { fact: s(t), fact_type: k.map(s) };
    let a = run.advance(FactsEvent::Parsed(vec![
        fact(" ", None),
        fact("любит чай", Some("preference")),
        fact("живёт в Туле", None),
    ]));
    assert!(matches!(a, FactsAction::Embed(t) if t == "любит чай"));
    let a = run.advance(FactsEvent::Did);
    assert!(matches!(a, FactsAction::Search(q) if q.collection == "user_facts" && q.limit == 3));
    let close = vec![SearchHit { score: bits(0.95), payload: vec![] }];
    let a = run.advance(FactsEvent::Hits(close));
    assert!(matches!(a, FactsAction::Embed(t) if t == "живёт в Туле"));
    run.advance(FactsEvent::Did);
    let a = run.advance(FactsEvent::Failed(failed()));
    assert!(matches!(a, FactsAction::Store { fact, fact_type }
        if fact == "живёт в Туле" && fact_type == "other"));
    assert!(matches!(run.advance(FactsEvent::Did), FactsAction::Done));
}

#[test]
fn fact_extraction_ends_early() {
    assert!(matches!(maybe_extract_facts(1, 2, 0, 5, "m", bits(0.9)).1, FactsAction::Done));
    let (mut run, _) = maybe_extract_facts(1, 2, 3, 5, "m", bits(0.9));
    assert!(matches!(run.advance(FactsEvent::Counted(2)), FactsAction::Done));
    let (mut run, _) = maybe_extract_facts(1, 2, 3, 5, "m", bits(0.9));
    run.advance(FactsEvent::Counted(3));
    let a = run.advance(FactsEvent::Failed(failed()));
    assert!(matches!(a, FactsAction::Fail(Error::Other(_))));
}

#[test]
fn a_close_fact_is_known() {
    let h = |x: f32| SearchHit { score: bits(x), payload: vec![] };
    assert!(is_duplicate(&vec![h(0.1), h(0.91)], bits(0.9)));
    assert!(!is_duplicate(&vec![h(0.1), h(0.9)], bits(0.9)));
    assert!(!is_duplicate(&vec![h(0.1), h(0.89)], bits(0.9)));
    assert!(!is_duplicate(&vec![], bits(0.9)));
    let (id, payload) = fact_point(-5, 7, "other");
    assert_eq!(id.len(), 36);
    assert_eq!(payload_int(&payload, "user_id"), Some(7));
    assert_eq!(payload_int(&payload, "chat_id"), Some(-5));
    assert_eq!(payload_text(&payload, "fact_type").as_deref(), Some("other"));
}

#[test]
fn summary_goes_step_by_step() {
    let (mut run, a) = maybe_summarize(50, 40, "m");
    assert!(matches!(a, SummaryAction::Count));
    assert!(matches!(run.advance(SummaryEvent::Counted(50)), SummaryAction::Reset));
    assert!(matches!(run.advance(SummaryEvent::Did), SummaryAction::Read { limit: 40 }));
    let row = |name: Option<&str>, text: Option<&str>, desc: Option<&str>| MessageRow {
        user_id: 1,
        username: name.map(s),
        text: text.map(s),
        media_description: desc.map(s),
    };
    let rows = vec![
        row(None, Some("поздно"), None),
        row(Some("bob"), None, None),
        row(Some("ann"), None, Some("кот")),
    ];
    assert_eq!(format_messages_for_summary(&rows), "ann:  [кот]\nanon: поздно\n");
    match run.advance(SummaryEvent::Messages(rows)) {
        SummaryAction::Ask { model, messages } => {
            assert_eq!(model, "m");
            assert_eq!(text_of(&messages[0]), SUMMARY_PROMPT);
            assert_eq!(text_of(&messages[1]), "ann:  [кот]\nanon: поздно\n");
        }
        _ => panic!("nobody asked"),
    }
    let a = run.advance(SummaryEvent::Answered(s(" итог\n")));
    assert!(matches!(a, SummaryAction::Embed(t) if t == "итог"));
    assert!(matches!(run.advance(SummaryEvent::Did), SummaryAction::Store(t) if t == "итог"));
    assert!(matches!(run.advance(SummaryEvent::Did), SummaryAction::Done));
    let (_, payload) = summary_point(-5, "итог");
    assert_eq!(payload_text(&payload, "text").as_deref(), Some("итог"));
    assert_eq!(payload_int(&payload, "chat_id"), Some(-5));
}

#[test]
fn summary_ends_early() {
    assert!(matches!(maybe_summarize(0, 40, "m").1, SummaryAction::Done));
    let (mut run, _) = maybe_summarize(50, 40, "m");
    assert!(matches!(run.advance(SummaryEvent::Counted(49)), SummaryAction::Done));
    let (mut run, _) = maybe_summarize(1, 40, "m");
    run.advance(SummaryEvent::Counted(1));
    let a = run.advance(SummaryEvent::Failed(failed()));
    assert!(matches!(a, SummaryAction::Fail(Error::Other(_))));
}

#[test]
fn a_portrait_always_comes() {
    assert!(matches!(get_or_synthesize_dna(&[]), DnaStep::Get));
    let kept = [DnaEvent::Kept(Some(s("днк")))];
    assert!(matches!(get_or_synthesize_dna(&kept), DnaStep::Done(t) if t == "днк"));
    assert!(matches!(get_or_synthesize_dna(&[DnaEvent::Failed]), DnaStep::Done(t)
        if t == DNA_DEFAULT));
    let none = [DnaEvent::Kept(None)];
    assert!(matches!(get_or_synthesize_dna(&none), DnaStep::Read { limit: 20 }));
    let new = [DnaEvent::Kept(None), DnaEvent::Summaries(vec![])];
    assert!(matches!(get_or_synthesize_dna(&new), DnaStep::Keep(t) if t == DNA_NEW_CHAT));
    let some = || DnaEvent::Summaries(vec![s("a"), s("b")]);
    match get_or_synthesize_dna(&[DnaEvent::Kept(None), some()]) {
        DnaStep::Ask(m) => {
            assert_eq!(text_of(&m[0]), DNA_PROMPT);
            assert_eq!(text_of(&m[1]), "- a\n- b");
        }
        _ => panic!("nobody asked"),
    }
    let answered = [DnaEvent::Kept(None), some(), DnaEvent::Answered(s(" днк "))];
    assert!(matches!(get_or_synthesize_dna(&answered), DnaStep::Keep(t) if t == "днк"));
    let end = [DnaEvent::Kept(None), some(), DnaEvent::Answered(s("днк")), DnaEvent::Failed];
    assert!(matches!(get_or_synthesize_dna(&end), DnaStep::Done(t) if t == "днк"));
    let silent = [DnaEvent::Kept(None), some(), DnaEvent::Failed];
    assert!(matches!(get_or_synthesize_dna(&silent), DnaStep::Done(t) if t == DNA_DEFAULT));
}

#[test]
fn a_failed_chat_does_not_stop_the_round() {
    assert!(matches!(run_dedup(&[]), RoundStep::FindChats));
    let chats = || RoundEvent::Chats(vec![-1, -2]);
    assert!(matches!(run_dedup(&[chats()]), RoundStep::Chat(-1)));
    let one = [chats(), RoundEvent::Failed(failed())];
    assert!(matches!(run_dedup(&one), RoundStep::Chat(-2)));
    let two = [chats(), RoundEvent::Failed(failed()), RoundEvent::Did];
    assert!(matches!(run_dedup(&two), RoundStep::Done));
    assert!(matches!(run_dedup(&[RoundEvent::Failed(failed())]), RoundStep::Fail(Error::Other(_))));
}
