//! Long-term memories: what is searched, written and read.
use ragtg_bot::error::Error;
use ragtg_bot::float_bits::FloatBits;
use ragtg_bot::llm::prompts::system::FewShot;
use ragtg_bot::memory::episodic::retrieve_relevant_summaries;
use ragtg_bot::memory::events::{
    dedup_hash, enqueue_candidate, insert, is_candidate, lower_hash, retrieve_relevant,
    CandidateRow, EnqueueEvent, EnqueueStep, CATEGORIES,
};
use ragtg_bot::memory::lore::{
    add_lore, delete_lore, retrieve_relevant_lore, DeleteEvent, DeleteStep,
};
use ragtg_bot::memory::retrieval::{RetrieveEvent, RetrieveStep, Table};
use ragtg_bot::memory::semantic::{
    display_name, retrieve_facts_for_window_users, retrieve_user_facts, window_users,
};
use ragtg_bot::memory::store::{store, StoreEvent, StoreStep};
use ragtg_bot::memory::working::WorkingMessage;
use ragtg_bot::storage::qdrant::{
    cleanup_obsolete_collections, ensure_collections, failed_on, found, healthcheck, payload_int,
    payload_text, search_similar, search_similar_user_facts, sqlite_ids, texts_of_hits,
    EnsureAction, EnsureEvent, EnsureRun, Payload, PayloadValue, SearchHit, COLLECTIONS, OBSOLETE,
    SUMMARIES_COLLECTION, VECTOR_DIM,
};
use ragtg_bot::tasks::shots_seeder::{
    retrieve_relevant_shots, seed_shot, seed_shots, shots_query, SeedEvent, SeedStep,
};

fn s(t: &str) -> String {
    t.to_string()
}

fn hit(score: f32, payload: Payload) -> SearchHit {
    SearchHit { score: FloatBits { bits: score.to_bits() }, payload }
}

fn row(id: i64) -> Payload {
    vec![(s("chat_id"), PayloadValue::Int(5)), (s("sqlite_id"), PayloadValue::Int(id))]
}

fn entry(user_id: i64, name: Option<&str>) -> WorkingMessage {
    WorkingMessage {
        user_id,
        username: name.map(s),
        text: s("x"),
        media_desc: None,
        ts: 1,
        tg_message_id: None,
    }
}

fn candidate(text: &str, desc: Option<&str>) -> CandidateRow {
    CandidateRow {
        sqlite_message_id: 1,
        user_id: 2,
        username: None,
        text: s(text),
        media_desc: desc.map(s),
    }
}

fn is_uuid(id: &str, version: char) -> bool {
    let c: Vec<char> = id.chars().collect();
    c.len() == 36
        && c[14] == version
        && "89ab".contains(c[19])
        && c.iter().enumerate().all(|(i, x)| match i {
            8 | 13 | 18 | 23 => *x == '-',
            _ => x.is_ascii_digit() || ('a'..='f').contains(x),
        })
}

#[test]
fn payloads_are_read_by_name() {
    let p: Payload = vec![
        (s("a"), PayloadValue::Int(1)),
        (s("b"), PayloadValue::Text(s("t"))),
        (s("c"), PayloadValue::Other),
    ];
    assert_eq!(payload_int(&p, "a"), Some(1));
    assert_eq!(payload_int(&p, "b"), None);
    assert_eq!(payload_text(&p, "b").as_deref(), Some("t"));
    assert_eq!(payload_text(&p, "c"), None);
    assert_eq!(payload_text(&p, "d"), None);
}

#[test]
fn hits_lead_to_rows_and_texts() {
    let hits = vec![hit(0.9, row(3)), hit(0.8, vec![]), hit(0.7, row(1))];
    assert_eq!(sqlite_ids(&hits), vec![3, 1]);
    let texts = vec![
        hit(0.9, vec![(s("text"), PayloadValue::Text(s("да")))]),
        hit(0.8, vec![(s("text"), PayloadValue::Int(1))]),
    ];
    assert_eq!(texts_of_hits(&texts, "text"), vec!["да"]);
    assert_eq!(found(&vec![Some(s("a")), None, Some(s("b"))]), vec!["a", "b"]);
    let e = failed_on("search", "chat_events", "down");
    assert_eq!(e.message(), "qdrant error: search(chat_events): down");
}

#[test]
fn searches_stay_in_the_chat() {
    let q = search_similar("lore", -5, 3);
    assert_eq!((q.collection.as_str(), q.limit), ("lore", 3));
    assert_eq!(q.must, vec![(s("chat_id"), -5)]);
    let q = search_similar_user_facts(-5, 7, 4);
    assert_eq!((q.collection.as_str(), q.limit), ("user_facts", 4));
    assert_eq!(q.must, vec![(s("chat_id"), -5), (s("user_id"), 7)]);
}

#[test]
fn collections_are_made_sure_of() {
    let (mut run, first) = EnsureRun::start();
    assert!(matches!(first, EnsureAction::Check(c) if c == COLLECTIONS[0]));
    let a = ensure_collections(&mut run, &EnsureEvent::Missing);
    assert!(matches!(a, EnsureAction::Create(c) if c == COLLECTIONS[0]));
    let a = ensure_collections(&mut run, &EnsureEvent::Created);
    assert!(matches!(a, EnsureAction::Check(c) if c == COLLECTIONS[1]));
    let a = ensure_collections(&mut run, &EnsureEvent::Failed(s("x")));
    assert!(matches!(a, EnsureAction::Fail(e)
        if e.message() == format!("qdrant error: collection_exists({}): x", COLLECTIONS[1])));
    for _ in 1..COLLECTIONS.len() {
        let a = ensure_collections(&mut run, &EnsureEvent::Exists);
        assert!(matches!(a, EnsureAction::Check(_) | EnsureAction::Done));
    }
    assert_eq!(run.at, COLLECTIONS.len());
    let (mut run, _) = EnsureRun::start();
    ensure_collections(&mut run, &EnsureEvent::Missing);
    let a = ensure_collections(&mut run, &EnsureEvent::Failed(s("x")));
    assert!(matches!(a, EnsureAction::Fail(e)
        if e.message() == format!("qdrant error: create_collection({}): x", COLLECTIONS[0])));
    assert_eq!(VECTOR_DIM, 1024);
}

#[test]
fn a_missing_collection_is_reported() {
    let all: Vec<String> = COLLECTIONS.iter().map(|c| s(c)).collect();
    assert!(healthcheck(&all).is_ok());
    let mut more = all.clone();
    more.reverse();
    more.push(s("other"));
    assert!(healthcheck(&more).is_ok());
    for gone in 0..all.len() {
        let mut some = all.clone();
        some.remove(gone);
        match healthcheck(&some) {
            Err(e) => assert_eq!(
                e.message(),
                format!("qdrant error: missing collection: {}", COLLECTIONS[gone])
            ),
            Ok(()) => panic!("complete"),
        }
    }
}

#[test]
fn only_obsolete_collections_go() {
    assert_eq!(OBSOLETE, ["lore"]);
    assert_eq!(cleanup_obsolete_collections(&vec![true]), vec!["lore"]);
    let none: Vec<String> = vec![];
    assert_eq!(cleanup_obsolete_collections(&vec![false]), none);
    assert!(COLLECTIONS.iter().all(|c| *c != "lore"));
}

#[test]
fn long_texts_and_described_media_are_candidates() {
    assert!(is_candidate("пятнадцать букв!", None));
    assert!(!is_candidate("четырнадцать б", None));
    assert!(!is_candidate("а б в г д е ж з и к", None));
    assert!(!is_candidate("/ask пятнадцать букв и больше", Some("кот")));
    assert!(!is_candidate("  /ask пятнадцать букв и больше", None));
    assert!(is_candidate("", Some("кот")));
    assert!(!is_candidate("", Some("  ")));
    assert!(!is_candidate("", None));
}

#[test]
fn the_same_message_has_the_same_digest() {
    let a = dedup_hash("  Привет ВСЕМ ", Some(" КОТ"));
    assert_eq!(a, dedup_hash("привет всем", Some("кот")));
    assert_ne!(a, dedup_hash("привет всем", None));
    assert_eq!(
        dedup_hash("ПРИВЕТ", Some("Кот на столе")),
        "2dc40104c60e9b0e03a636f4724aea81077368b3d99bac5d18c9922c1d856a02"
    );
    assert_eq!(
        lower_hash("привет всем, как у вас дела", None),
        "2fbbb5797b9de64260741df35f108d13f43ea550ab170bb0fd2462002711c53e"
    );
    assert_ne!(lower_hash("A", None), lower_hash("a", None));
    assert_eq!(lower_hash("a", None), lower_hash("a", Some("")));
    assert_ne!(lower_hash("a", None), lower_hash("a", Some("b")));
    assert_eq!(dedup_hash("a", None).len(), 64);
    assert_eq!(dedup_hash("a", None), dedup_hash("A", Some(" \n")));
}

#[test]
fn candidates_are_enqueued() {
    let c = candidate("привет всем, как у вас дела", None);
    assert!(matches!(enqueue_candidate(&c, &[]), EnqueueStep::Record(h)
        if h == "2fbbb5797b9de64260741df35f108d13f43ea550ab170bb0fd2462002711c53e"));
    let known = [EnqueueEvent::Recorded(false)];
    assert!(matches!(enqueue_candidate(&c, &known), EnqueueStep::Done(0)));
    assert!(matches!(enqueue_candidate(&c, &[EnqueueEvent::NotRecorded]), EnqueueStep::Done(0)));
    let fresh = [EnqueueEvent::Recorded(true)];
    assert!(matches!(enqueue_candidate(&c, &fresh), EnqueueStep::Write));
    let wrote = [EnqueueEvent::Recorded(true), EnqueueEvent::Wrote(s("{}"))];
    assert!(matches!(enqueue_candidate(&c, &wrote), EnqueueStep::Push(t) if t == "{}"));
    let pushed =
        [EnqueueEvent::Recorded(true), EnqueueEvent::Wrote(s("{}")), EnqueueEvent::Pushed(4)];
    assert!(matches!(enqueue_candidate(&c, &pushed), EnqueueStep::Done(4)));
    let lost = [EnqueueEvent::Recorded(true), EnqueueEvent::Wrote(s("{}")), EnqueueEvent::NotPushed];
    assert!(matches!(enqueue_candidate(&c, &lost), EnqueueStep::Done(0)));
    let unwritten = [EnqueueEvent::Recorded(true), EnqueueEvent::NotWritten];
    assert!(matches!(enqueue_candidate(&c, &unwritten), EnqueueStep::Done(0)));
    assert!(matches!(enqueue_candidate(&candidate("да", None), &[]), EnqueueStep::Done(0)));
}

#[test]
fn new_points_have_fresh_ids() {
    let (a, payload) = insert(-5, CATEGORIES[0], 9);
    let (b, _) = insert(-5, CATEGORIES[0], 9);
    assert!(is_uuid(&a, '4') && is_uuid(&b, '4'));
    assert_ne!(a, b);
    assert_eq!(payload_int(&payload, "chat_id"), Some(-5));
    assert_eq!(payload_text(&payload, "category").as_deref(), Some(CATEGORIES[0]));
    assert_eq!(payload_int(&payload, "score"), Some(9));
    let (id, payload) = add_lore(-5, &Some(s("мем")));
    assert!(is_uuid(&id, '4'));
    assert_eq!(payload_text(&payload, "tags").as_deref(), Some("мем"));
    assert_eq!(add_lore(-5, &None).1.len(), 1);
}

#[test]
fn memories_are_written_row_first() {
    let payload = || vec![(s("chat_id"), PayloadValue::Int(5))];
    assert!(matches!(store(payload(), &[]), StoreStep::InsertRow));
    assert!(matches!(store(payload(), &[StoreEvent::Inserted]), StoreStep::FindRow));
    let two = [StoreEvent::Inserted, StoreEvent::Row(8)];
    match store(payload(), &two) {
        StoreStep::Upsert(p) => {
            assert_eq!(payload_int(&p, "sqlite_id"), Some(8));
            assert_eq!(payload_int(&p, "chat_id"), Some(5));
            assert_eq!(sqlite_ids(&vec![hit(0.5, p)]), vec![8]);
        }
        _ => panic!("no point"),
    }
    let three = [StoreEvent::Inserted, StoreEvent::Row(8), StoreEvent::Upserted];
    assert!(matches!(store(payload(), &three), StoreStep::Done(8)));
    let failed = || StoreEvent::Failed(Error::Sqlite(s("x")));
    assert!(matches!(store(payload(), &[failed()]), StoreStep::Fail(Error::Sqlite(_))));
    let seen = [StoreEvent::Inserted, failed()];
    assert!(matches!(store(payload(), &seen), StoreStep::Fail(Error::Sqlite(_))));
    let seen = [StoreEvent::Inserted, StoreEvent::Row(8), failed()];
    assert!(matches!(store(payload(), &seen), StoreStep::Fail(Error::Sqlite(_))));
}

#[test]
fn summaries_come_from_the_hits() {
    assert!(matches!(retrieve_relevant_summaries(5, 0, &[]), RetrieveStep::Done(v) if v.is_empty()));
    assert!(matches!(retrieve_relevant_summaries(5, 3, &[]), RetrieveStep::Search(q)
        if q.collection == "episodic_summaries" && q.limit == 3));
    let hits = [RetrieveEvent::Hits(vec![
        hit(0.9, vec![(s("text"), PayloadValue::Text(s("было")))]),
        hit(0.8, row(1)),
    ])];
    assert!(matches!(retrieve_relevant_summaries(5, 3, &hits), RetrieveStep::Done(v)
        if v == vec!["было"]));
    let bad = [RetrieveEvent::Failed];
    assert!(matches!(retrieve_relevant_summaries(5, 3, &bad), RetrieveStep::Done(v) if v.is_empty()));
}

#[test]
fn events_facts_and_lore_come_from_rows() {
    let hits = || RetrieveEvent::Hits(vec![hit(0.9, row(3)), hit(0.8, row(4))]);
    let texts = || RetrieveEvent::Texts(vec![None, Some(s("да"))]);
    assert!(matches!(retrieve_relevant(5, 2, &[]), RetrieveStep::Search(q)
        if q.collection == "chat_events"));
    assert!(matches!(retrieve_relevant(5, 2, &[hits()]), RetrieveStep::Rows(Table::ChatEvents, ids)
        if ids == vec![3, 4]));
    assert!(matches!(retrieve_relevant(5, 2, &[hits(), texts()]), RetrieveStep::Done(v)
        if v == vec!["да"]));
    assert!(matches!(retrieve_relevant_lore(5, "вопрос", 2, &[]), RetrieveStep::Embed(t)
        if t == "вопрос"));
    let seen = [RetrieveEvent::Embedded, hits()];
    assert!(matches!(retrieve_relevant_lore(5, "q", 2, &seen), RetrieveStep::Rows(Table::Lore, _)));
    let seen = [RetrieveEvent::Failed];
    assert!(matches!(retrieve_relevant_lore(5, "q", 2, &seen), RetrieveStep::Done(v)
        if v.is_empty()));
    assert!(matches!(retrieve_user_facts(5, 7, "q", 2, &[]), RetrieveStep::Embed(t) if t == "q"));
    let seen = [RetrieveEvent::Embedded];
    assert!(matches!(retrieve_user_facts(5, 7, "q", 2, &seen), RetrieveStep::Search(q)
        if q.must.len() == 2));
    let seen = [RetrieveEvent::Embedded, hits()];
    assert!(matches!(retrieve_user_facts(5, 7, "q", 2, &seen),
        RetrieveStep::Rows(Table::UserFacts, ids) if ids == vec![3, 4]));
}

#[test]
fn lore_is_deleted_row_first() {
    assert!(matches!(delete_lore(&[]), DeleteStep::FindPoint));
    assert!(matches!(delete_lore(&[DeleteEvent::Point(None)]), DeleteStep::Done(false)));
    let point = || DeleteEvent::Point(Some(s("p")));
    assert!(matches!(delete_lore(&[point()]), DeleteStep::DeleteRow));
    assert!(matches!(delete_lore(&[point(), DeleteEvent::Did]), DeleteStep::DeletePoint(p)
        if p == "p"));
    let failed = || DeleteEvent::Failed(Error::Qdrant(s("x")));
    assert!(matches!(delete_lore(&[point(), failed()]), DeleteStep::Fail(Error::Qdrant(_))));
    let seen = [point(), DeleteEvent::Did, failed()];
    assert!(matches!(delete_lore(&seen), DeleteStep::Done(true)));
    assert!(matches!(delete_lore(&[failed()]), DeleteStep::Fail(Error::Qdrant(_))));
}

#[test]
fn every_speaker_is_looked_up_once() {
    let w = vec![entry(3, Some("ann")), entry(1, None), entry(3, None), entry(2, Some("bob"))];
    assert_eq!(window_users(&w), vec![3, 1, 2]);
    assert_eq!(display_name(&w, 3), "ann");
    assert_eq!(display_name(&w, 1), "uid:1");
    assert_eq!(display_name(&w, 9), "uid:9");
    let facts = vec![(3, vec![s("чай")]), (1, vec![]), (2, vec![s("кот"), s("пёс")])];
    assert_eq!(
        retrieve_facts_for_window_users(&w, &facts),
        vec![(s("ann"), vec![s("чай")]), (s("bob"), vec![s("кот"), s("пёс")])]
    );
    let twins = vec![entry(1, Some("ann")), entry(2, Some("ann"))];
    let facts = vec![(1, vec![s("чай")]), (2, vec![s("кот")])];
    assert_eq!(
        retrieve_facts_for_window_users(&twins, &facts),
        vec![(s("ann"), vec![s("кот")])]
    );
}

#[test]
fn seeded_examples_come_back() {
    let shot = FewShot { context: s("python.org"), reply: s("да") };
    let (id, payload) = seed_shot(&shot);
    assert_eq!(id, "886313e1-3b8a-5372-9b90-0c9aee199e5d");
    assert!(is_uuid(&id, '5'));
    assert_eq!(seed_shot(&shot).0, id);
    let (id, _) = seed_shot(&FewShot { context: s("привет"), reply: s("x") });
    assert_eq!(id, "43eec7ca-0ff7-5d77-9faa-6955bd8e6dc9");
    let back = retrieve_relevant_shots(&vec![hit(0.9, payload), hit(0.1, vec![])]);
    assert_eq!((back[0].context.as_str(), back[0].reply.as_str()), ("python.org", "да"));
    assert_eq!((back[1].context.as_str(), back[1].reply.as_str()), ("", ""));
    let q = shots_query(5);
    assert_eq!((q.collection.as_str(), q.limit, q.must.len()), ("style_shots", 5, 0));
}

#[test]
fn examples_are_seeded_in_turn() {
    let shots = vec![
        FewShot { context: s("python.org"), reply: s("да") },
        FewShot { context: s("привет"), reply: s("нет") },
    ];
    let did = |n: usize| -> Vec<SeedEvent> { (0..n).map(|_| SeedEvent::Did).collect() };
    assert!(matches!(seed_shots(&shots, &did(0)), SeedStep::Embed(t) if t == "python.org"));
    assert!(matches!(seed_shots(&shots, &did(1)), SeedStep::Upsert { id, payload }
        if id == "886313e1-3b8a-5372-9b90-0c9aee199e5d"
            && payload_text(&payload, "reply").as_deref() == Some("да")));
    assert!(matches!(seed_shots(&shots, &did(2)), SeedStep::Embed(t) if t == "привет"));
    assert!(matches!(seed_shots(&shots, &did(3)), SeedStep::Upsert { id, .. }
        if id == "43eec7ca-0ff7-5d77-9faa-6955bd8e6dc9"));
    assert!(matches!(seed_shots(&shots, &did(4)), SeedStep::Done));
    let lost = [SeedEvent::Did, SeedEvent::Failed(Error::Qdrant(s("x")))];
    assert!(matches!(seed_shots(&shots, &lost), SeedStep::Fail(Error::Qdrant(_))));
    assert!(matches!(seed_shots(&vec![], &[]), SeedStep::Done));
}

#[test]
fn what_is_written_is_what_is_searched() {
    let searched = |step: RetrieveStep| match step {
        RetrieveStep::Search(q) => q.collection,
        _ => panic!("no search"),
    };
    assert_eq!(searched(retrieve_relevant(5, 2, &[])), Table::ChatEvents.collection());
    let embedded = [RetrieveEvent::Embedded];
    assert_eq!(searched(retrieve_relevant_lore(5, "q", 2, &embedded)), Table::Lore.collection());
    assert_eq!(searched(retrieve_user_facts(5, 7, "q", 2, &embedded)), Table::UserFacts.collection());
    assert_eq!(searched(retrieve_relevant_summaries(5, 2, &[])), SUMMARIES_COLLECTION);
    assert_eq!(Table::ChatEvents.collection(), "chat_events");
    assert_eq!(Table::Lore.collection(), "lore");
    assert_eq!(Table::UserFacts.collection(), "user_facts");
}
