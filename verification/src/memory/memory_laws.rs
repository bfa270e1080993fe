//! What reading and writing memories promises as a whole.
use vstd::prelude::*;

use crate::error::ErrorView;
use crate::llm::prompt_builder::PeopleView;
use crate::memory::events::{
    dedup_key, enqueue_step, event_payload, fingerprint, solid_len, worth_scoring, CandidateRowView,
    EnqueueEventView, EnqueueStepView,
};
use crate::memory::lore::{delete_lore_step, lore_payload, DeleteEventView, DeleteStepView};
use crate::memory::retrieval::{
    embedded_rows_step, hits_step, rows_step, RetrieveEventView, RetrieveStepView, Table,
};
use crate::memory::semantic::{people_of, place_of, shown_name, speakers};
use crate::memory::store::{store_step, StoreEventView, StoreStepView};
use crate::memory::working::{window_key, WorkingMessageView};
use crate::storage::laws::law_keys_do_not_clash;
use crate::storage::qdrant::{
    chat_query, collection_error, doomed_collections, facts_query, int_under, lookup, present, row_ids, text_under,
    PayloadValueView, PayloadView, SearchHitView, SearchQueryView,
};
use crate::storage::redis::{candidates_key, dedup_set_key, dna_key};
use crate::text::{decimal, is_space, trim_seq};

verus! {

/// The texts of the rows that the hits point at, in the order of the hits, where `db`
/// tells the text of a row that is there; a hit that points at no row and a row that is
/// gone give nothing.
pub open spec fn read_back(
    hits: Seq<SearchHitView>,
    db: spec_fn(i64) -> Option<Seq<char>>,
) -> Seq<Seq<char>>
    decreases hits.len(),
{
    if hits.len() == 0 {
        Seq::empty()
    } else {
        let before = read_back(hits.drop_last(), db);
        match lookup(hits.last().payload, "sqlite_id"@) {
            Some(PayloadValueView::Int(id)) => match db(id) {
                Some(text) => before.push(text),
                None => before,
            },
            _ => before,
        }
    }
}

proof fn lemma_read_back(hits: Seq<SearchHitView>, db: spec_fn(i64) -> Option<Seq<char>>)
    ensures
        present(row_ids(hits).map_values(db)) == read_back(hits, db),
    decreases hits.len(),
{
    if hits.len() > 0 {
        let init = hits.drop_last();
        lemma_read_back(init, db);
        match int_under(hits.last().payload, "sqlite_id"@) {
            Some(id) => {
                assert(row_ids(hits).map_values(db) =~= row_ids(init).map_values(db).push(db(id)));
                assert(row_ids(hits).map_values(db).drop_last() =~= row_ids(init).map_values(db));
            },
            None => {},
        }
    } else {
        assert(row_ids(hits).map_values(db) =~= Seq::empty());
    }
}

/// A search whose hits point at rows: the search is made as it was asked for, and the
/// texts of all rows that the hits point at come back, in the order of the hits.
pub proof fn law_every_hit_is_read_back(
    query: SearchQueryView,
    table: Table,
    hits: Seq<SearchHitView>,
    db: spec_fn(i64) -> Option<Seq<char>>,
)
    requires
        query.limit > 0,
    ensures
        rows_step(query, table, Seq::empty()) == RetrieveStepView::Search(query),
        ({
            let found = RetrieveEventView::Hits(hits);
            let asked = rows_step(query, table, seq![found]);
            &&& asked matches RetrieveStepView::Rows(t, ids) && t == table && rows_step(
                query,
                table,
                seq![found, RetrieveEventView::Texts(ids.map_values(db))],
            ) == RetrieveStepView::Done(read_back(hits, db))
        }),
{
    lemma_read_back(hits, db);
}

/// Where a text is to be searched with, it is embedded first, and then all goes as where
/// the vector is there.
pub proof fn law_a_text_is_embedded_first(
    text: Seq<char>,
    query: SearchQueryView,
    table: Table,
    hits: Seq<SearchHitView>,
    db: spec_fn(i64) -> Option<Seq<char>>,
)
    requires
        query.limit > 0,
    ensures
        embedded_rows_step(text, query, table, Seq::empty()) == RetrieveStepView::Embed(text),
        embedded_rows_step(text, query, table, seq![RetrieveEventView::Embedded])
            == RetrieveStepView::Search(query),
        ({
            let first = RetrieveEventView::Embedded;
            let found = RetrieveEventView::Hits(hits);
            &&& embedded_rows_step(text, query, table, seq![first, found]) matches
                RetrieveStepView::Rows(t, ids) && t == table && embedded_rows_step(
                text,
                query,
                table,
                seq![first, found, RetrieveEventView::Texts(ids.map_values(db))],
            ) == RetrieveStepView::Done(read_back(hits, db))
        }),
{
    let first = RetrieveEventView::Embedded;
    let found = RetrieveEventView::Hits(hits);
    let texts = RetrieveEventView::Texts(row_ids(hits).map_values(db));
    assert(seq![first].skip(1) =~= Seq::empty());
    assert(seq![first, found].skip(1) =~= seq![found]);
    assert(seq![first, found, texts].skip(1) =~= seq![found, texts]);
    law_every_hit_is_read_back(query, table, hits, db);
}

/// A search whose hits hold the texts: each hit with a text under the name gives it, in
/// the order of the hits, and the others give nothing.
pub proof fn law_every_text_of_a_hit_comes_back(
    query: SearchQueryView,
    name: Seq<char>,
    hits: Seq<SearchHitView>,
    hit: SearchHitView,
)
    requires
        query.limit > 0,
    ensures
        hits_step(query, name, Seq::empty()) == RetrieveStepView::Search(query),
        hits_step(query, name, seq![RetrieveEventView::Hits(Seq::empty())])
            == RetrieveStepView::Done(Seq::empty()),
        ({
            let before = hits_step(query, name, seq![RetrieveEventView::Hits(hits)]);
            let after = hits_step(query, name, seq![RetrieveEventView::Hits(hits.push(hit))]);
            &&& before matches RetrieveStepView::Done(b) && after matches RetrieveStepView::Done(
                a,
            ) && a == (match lookup(hit.payload, name) {
                Some(PayloadValueView::Text(t)) => b.push(t),
                _ => b,
            })
        }),
{
    assert(hits.push(hit).drop_last() =~= hits);
}

/// A search for no texts is not made.
pub proof fn law_nothing_is_searched_for_nothing(
    text: Seq<char>,
    query: SearchQueryView,
    table: Table,
    name: Seq<char>,
    seen: Seq<RetrieveEventView>,
)
    requires
        query.limit == 0,
    ensures
        rows_step(query, table, seen) == RetrieveStepView::Done(Seq::empty()),
        embedded_rows_step(text, query, table, seen) == RetrieveStepView::Done(Seq::empty()),
        hits_step(query, name, seen) == RetrieveStepView::Done(Seq::empty()),
{
}

/// Searches stay within their chat, and those for facts with their user, and ask for as
/// many hits as are wanted.
pub proof fn law_searches_stay_in_the_chat(
    collection: Seq<char>,
    chat_id: i64,
    user_id: i64,
    top_k: u32,
)
    ensures
        chat_query(collection, chat_id, top_k).collection == collection,
        chat_query(collection, chat_id, top_k).limit == top_k,
        chat_query(collection, chat_id, top_k).must.contains(("chat_id"@, chat_id)),
        facts_query(chat_id, user_id, top_k).collection == "user_facts"@,
        facts_query(chat_id, user_id, top_k).limit == top_k,
        facts_query(chat_id, user_id, top_k).must.contains(("chat_id"@, chat_id)),
        facts_query(chat_id, user_id, top_k).must.contains(("user_id"@, user_id)),
{
    assert(chat_query(collection, chat_id, top_k).must[0] == ("chat_id"@, chat_id));
    assert(facts_query(chat_id, user_id, top_k).must[0] == ("chat_id"@, chat_id));
    assert(facts_query(chat_id, user_id, top_k).must[1] == ("user_id"@, user_id));
}

/// A memory is written whole: the row, then its number is looked up, then the point with
/// its payload and that number; and its row is what the writing ends with.
pub proof fn law_a_memory_is_written_whole(payload: PayloadView, id: i64)
    ensures
        ({
            let e1 = StoreEventView::Inserted;
            let e2 = StoreEventView::Row(id);
            let e3 = StoreEventView::Upserted;
            &&& store_step(payload, Seq::empty()) == StoreStepView::InsertRow
            &&& store_step(payload, seq![e1]) == StoreStepView::FindRow
            &&& store_step(payload, seq![e1, e2]) == StoreStepView::Upsert(
                payload + seq![("sqlite_id"@, PayloadValueView::Int(id))],
            )
            &&& store_step(payload, seq![e1, e2, e3]) == StoreStepView::Done(id)
        }),
{
    assert(payload + seq![("sqlite_id"@, PayloadValueView::Int(id))] =~= payload.push(
        ("sqlite_id"@, PayloadValueView::Int(id)),
    ));
}

/// Whatever fails while a memory is written is reported.
pub proof fn law_a_failed_write_is_reported(payload: PayloadView, id: i64, e: ErrorView)
    ensures
        ({
            let failed = StoreEventView::Failed(e);
            let e1 = StoreEventView::Inserted;
            let e2 = StoreEventView::Row(id);
            &&& store_step(payload, seq![failed]) == StoreStepView::Fail(e)
            &&& store_step(payload, seq![e1, failed]) == StoreStepView::Fail(e)
            &&& store_step(payload, seq![e1, e2, failed]) == StoreStepView::Fail(e)
        }),
{
}

/// The points of events and of lore hold what they are found by: the chat, and the kind
/// and the score, or the tags.
pub proof fn law_points_hold_what_they_are_found_by(
    chat_id: i64,
    category: Seq<char>,
    score: u8,
    tags: Seq<char>,
)
    ensures
        ({
            let p = event_payload(chat_id, category, score);
            &&& p.len() == 3
            &&& p.contains(("chat_id"@, PayloadValueView::Int(chat_id)))
            &&& p.contains(("category"@, PayloadValueView::Text(category)))
            &&& p.contains(("score"@, PayloadValueView::Int(score as i64)))
        }),
        lore_payload(chat_id, None) == seq![("chat_id"@, PayloadValueView::Int(chat_id))],
        lore_payload(chat_id, Some(tags)) == seq![
            ("chat_id"@, PayloadValueView::Int(chat_id)),
            ("tags"@, PayloadValueView::Text(tags)),
        ],
{
    let p = event_payload(chat_id, category, score);
    assert(p[0] == ("chat_id"@, PayloadValueView::Int(chat_id)));
    assert(p[1] == ("category"@, PayloadValueView::Text(category)));
    assert(p[2] == ("score"@, PayloadValueView::Int(score as i64)));
    assert(lore_payload(chat_id, Some(tags)) =~= seq![
        ("chat_id"@, PayloadValueView::Int(chat_id)),
        ("tags"@, PayloadValueView::Text(tags)),
    ]);
}

/// A lore entry is deleted from both stores: its row, and then its point. Where there is
/// no such entry nothing is deleted.
pub proof fn law_lore_is_deleted_from_both_stores(
    point: Seq<char>,
    e: ErrorView,
    outcome: DeleteEventView,
)
    ensures
        ({
            let there = DeleteEventView::Point(Some(point));
            let did = DeleteEventView::Did;
            let failed = DeleteEventView::Failed(e);
            &&& delete_lore_step(Seq::empty()) == DeleteStepView::FindPoint
            &&& delete_lore_step(seq![there]) == DeleteStepView::DeleteRow
            &&& delete_lore_step(seq![there, did]) == DeleteStepView::DeletePoint(point)
            &&& delete_lore_step(seq![there, did, outcome]) == DeleteStepView::Done(true)
            &&& delete_lore_step(seq![DeleteEventView::Point(None)]) == DeleteStepView::Done(
                false,
            )
            &&& delete_lore_step(seq![failed]) == DeleteStepView::Fail(e)
            &&& delete_lore_step(seq![there, failed]) == DeleteStepView::Fail(e)
        }),
{
}

/// Whether a message is a candidate: it does not begin with a slash, and it has fifteen
/// characters that are not white space or a description that is not blank.
pub proof fn law_candidates_are_long_or_described(text: Seq<char>, desc: Option<Seq<char>>)
    ensures
        ({
            let t = trim_seq(text);
            let command = t.len() > 0 && t[0] == '/';
            let solid = t.filter(|c: char| !is_space(c)).len();
            let described = desc matches Some(d) && trim_seq(d).len() > 0;
            worth_scoring(text, desc) <==> !command && (solid >= 15 || described)
        }),
{
    lemma_solid(trim_seq(text));
}

proof fn lemma_solid(s: Seq<char>)
    ensures
        solid_len(s) == s.filter(|c: char| !is_space(c)).len(),
    decreases s.len(),
{
    reveal(Seq::filter);
    if s.len() > 0 {
        lemma_solid(s.drop_last());
    }
}

/// A candidate's way into the buffer: its digest is recorded, and where that is new it is
/// written as a text and pushed, and the length of the buffer is what comes back. One
/// that is known, one that is not worth it, and whatever fails gives 0.
pub proof fn law_candidate_takes_its_course(
    row: CandidateRowView,
    text: Seq<char>,
    n: i64,
    seen: Seq<EnqueueEventView>,
)
    ensures
        !worth_scoring(row.text, row.media_desc) ==> enqueue_step(
            row,
            dedup_key(row.text, row.media_desc),
            seen,
        ) == EnqueueStepView::Done(0),
        worth_scoring(row.text, row.media_desc) ==> {
            let hash = dedup_key(row.text, row.media_desc);
            let fresh = EnqueueEventView::Recorded(true);
            let wrote = EnqueueEventView::Wrote(text);
            let zero = EnqueueStepView::Done(0);
            &&& enqueue_step(row, hash, Seq::empty()) == EnqueueStepView::Record(hash)
            &&& enqueue_step(row, hash, seq![EnqueueEventView::Recorded(false)]) == zero
            &&& enqueue_step(row, hash, seq![EnqueueEventView::NotRecorded]) == zero
            &&& enqueue_step(row, hash, seq![fresh]) == EnqueueStepView::Write
            &&& enqueue_step(row, hash, seq![fresh, EnqueueEventView::NotWritten]) == zero
            &&& enqueue_step(row, hash, seq![fresh, wrote]) == EnqueueStepView::Push(text)
            &&& enqueue_step(row, hash, seq![fresh, wrote, EnqueueEventView::NotPushed]) == zero
            &&& enqueue_step(row, hash, seq![fresh, wrote, EnqueueEventView::Pushed(n)])
                == EnqueueStepView::Done(n)
        },
{
}

/// Only users who speak in the window are looked up, in the order in which they first
/// speak.
pub proof fn law_only_speakers_are_looked_up(
    window: Seq<WorkingMessageView>,
    w: WorkingMessageView,
)
    ensures
        speakers(Seq::empty()).len() == 0,
        speakers(window.push(w)) == (if exists|i: int|
            0 <= i < window.len() && (#[trigger] window[i]).user_id == w.user_id {
            speakers(window)
        } else {
            speakers(window).push(w.user_id)
        }),
    decreases window.len(),
{
    assert(window.push(w).drop_last() =~= window);
    lemma_speakers(window, w.user_id);
}

proof fn lemma_speakers(window: Seq<WorkingMessageView>, id: i64)
    ensures
        speakers(window).contains(id) <==> exists|i: int|
            0 <= i < window.len() && (#[trigger] window[i]).user_id == id,
    decreases window.len(),
{
    if window.len() > 0 {
        let init = window.drop_last();
        lemma_speakers(init, id);
        let before = speakers(init);
        let all = speakers(window);
        if before.contains(id) {
            let i = choose|i: int| 0 <= i < init.len() && (#[trigger] init[i]).user_id == id;
            assert(window[i].user_id == id);
            let g = choose|g: int| 0 <= g < before.len() && before[g] == id;
            assert(all[g] == id);
        } else if window.last().user_id == id {
            assert(window[window.len() - 1].user_id == id);
            assert(all[before.len() as int] == id);
        } else {
            if exists|i: int| 0 <= i < window.len() && (#[trigger] window[i]).user_id == id {
                let i = choose|i: int|
                    0 <= i < window.len() && (#[trigger] window[i]).user_id == id;
                assert(init[i].user_id == id);
            }
        }
    }
}

/// A user is shown under the name of the user's first entry in the window, or by number
/// where that entry has no name.
pub proof fn law_shown_under_the_first_name(window: Seq<WorkingMessageView>, id: i64, at: int)
    requires
        0 <= at < window.len(),
        window[at].user_id == id,
        forall|k: int| 0 <= k < at ==> (#[trigger] window[k]).user_id != id,
    ensures
        shown_name(window, id, 0) == (match window[at].username {
            Some(n) => n,
            None => "uid:"@ + decimal(id as int),
        }),
{
    lemma_shown_name(window, id, 0, at);
}

proof fn lemma_shown_name(window: Seq<WorkingMessageView>, id: i64, from: int, at: int)
    requires
        0 <= from <= at < window.len(),
        window[at].user_id == id,
        forall|k: int| 0 <= k < at ==> (#[trigger] window[k]).user_id != id,
    ensures
        shown_name(window, id, from) == shown_name(window, id, at),
    decreases at - from,
{
    if from < at {
        assert(window[from].user_id != id);
        lemma_shown_name(window, id, from + 1, at);
    }
}

proof fn lemma_place(people: PeopleView, name: Seq<char>, from: int)
    requires
        0 <= from,
    ensures
        match place_of(people, name, from) {
            Some(i) => from <= i < people.len() && people[i].0 == name,
            None => forall|k: int| from <= k < people.len() ==> (#[trigger] people[k]).0 != name,
        },
    decreases people.len() - from,
{
    if from < people.len() && people[from].0 != name {
        lemma_place(people, name, from + 1);
    }
}

/// Everybody of whom something is known is shown, with all that is known: the facts of a
/// user stand under the user's name, unless a later user is shown under the same name.
pub proof fn law_everybody_known_is_shown(
    window: Seq<WorkingMessageView>,
    facts: Seq<(i64, Seq<Seq<char>>)>,
    i: int,
)
    requires
        0 <= i < facts.len(),
        facts[i].1.len() > 0,
        forall|k: int|
            i < k < facts.len() && (#[trigger] facts[k]).1.len() > 0 ==> shown_name(
                window,
                facts[k].0,
                0,
            ) != shown_name(window, facts[i].0, 0),
    ensures
        people_of(window, facts).contains((shown_name(window, facts[i].0, 0), facts[i].1)),
    decreases facts.len(),
{
    let init = facts.drop_last();
    let before = people_of(window, init);
    let all = people_of(window, facts);
    let (user, known) = facts.last();
    let name = shown_name(window, user, 0);
    let wanted = (shown_name(window, facts[i].0, 0), facts[i].1);
    lemma_place(before, name, 0);
    if i == facts.len() - 1 {
        match place_of(before, name, 0) {
            Some(k) => assert(all[k] == wanted),
            None => assert(all[before.len() as int] == wanted),
        }
    } else {
        assert(init[i] == facts[i]);
        assert forall|k: int|
            i < k < init.len() && (#[trigger] init[k]).1.len() > 0 implies shown_name(
            window,
            init[k].0,
            0,
        ) != shown_name(window, init[i].0, 0) by {
            assert(init[k] == facts[k]);
        }
        law_everybody_known_is_shown(window, init, i);
        let g = choose|g: int| 0 <= g < before.len() && before[g] == wanted;
        if known.len() > 0 {
            assert(facts[facts.len() - 1].1.len() > 0);
            assert(name != wanted.0);
        }
        assert(all[g] == wanted);
    }
}

/// Nobody is shown with anything but what is known of a user of that name, and nobody
/// without anything known.
pub proof fn law_nothing_is_made_up_about_people(
    window: Seq<WorkingMessageView>,
    facts: Seq<(i64, Seq<Seq<char>>)>,
    g: int,
) -> (i: int)
    requires
        0 <= g < people_of(window, facts).len(),
    ensures
        0 <= i < facts.len(),
        facts[i].1.len() > 0,
        people_of(window, facts)[g] == (shown_name(window, facts[i].0, 0), facts[i].1),
    decreases facts.len(),
{
    let init = facts.drop_last();
    let before = people_of(window, init);
    let (user, known) = facts.last();
    let name = shown_name(window, user, 0);
    lemma_place(before, name, 0);
    if known.len() == 0 {
        law_nothing_is_made_up_about_people(window, init, g)
    } else {
        match place_of(before, name, 0) {
            Some(k) => if g == k {
                facts.len() - 1
            } else {
                law_nothing_is_made_up_about_people(window, init, g)
            },
            None => if g == before.len() {
                facts.len() - 1
            } else {
                law_nothing_is_made_up_about_people(window, init, g)
            },
        }
    }
}

/// What a payload holds under a name is what the first pair with that name holds.
pub proof fn law_first_value_counts(
    payload: PayloadView,
    name: Seq<char>,
    other: Seq<char>,
    value: PayloadValueView,
)
    ensures
        lookup(Seq::empty(), name) is None,
        lookup(seq![(name, value)] + payload, name) == Some(value),
        name != other ==> lookup(seq![(other, value)] + payload, name) == lookup(payload, name),
        text_under(seq![(name, value)] + payload, name) == (match value {
            PayloadValueView::Text(t) => Some(t),
            _ => None,
        }),
        int_under(seq![(name, value)] + payload, name) == (match value {
            PayloadValueView::Int(i) => Some(i),
            _ => None,
        }),
{
    assert((seq![(other, value)] + payload).drop_first() =~= payload);
}

/// What is kept for a chat is kept for that chat alone, and its window, its candidates,
/// its recent texts and its portrait are kept apart.
pub proof fn law_chats_are_kept_apart(a: i64, b: i64)
    ensures
        candidates_key(a) == candidates_key(b) ==> a == b,
        dedup_set_key(a) == dedup_set_key(b) ==> a == b,
        dna_key(a) == dna_key(b) ==> a == b,
        window_key(a) == window_key(b) ==> a == b,
        candidates_key(a) != dedup_set_key(b),
        candidates_key(a) != dna_key(b),
        candidates_key(a) != window_key(b),
        dedup_set_key(a) != dna_key(b),
        dedup_set_key(a) != window_key(b),
        dna_key(a) != window_key(b),
{
    reveal_strlit(":event_candidates");
    reveal_strlit(":event_dedup");
    reveal_strlit(":dna");
    reveal_strlit(":window");
    if candidates_key(a) == candidates_key(b) {
        law_keys_do_not_clash("chat:"@, a, b, ":event_candidates"@);
    }
    if dedup_set_key(a) == dedup_set_key(b) {
        law_keys_do_not_clash("chat:"@, a, b, ":event_dedup"@);
    }
    if dna_key(a) == dna_key(b) {
        law_keys_do_not_clash("chat:"@, a, b, ":dna"@);
    }
    if window_key(a) == window_key(b) {
        law_keys_do_not_clash("chat:"@, a, b, ":window"@);
    }
    assert(candidates_key(a).last() == 's');
    assert(dedup_set_key(a).last() == 'p');
    assert(dedup_set_key(b).last() == 'p');
    assert(dna_key(a).last() == 'a');
    assert(dna_key(b).last() == 'a');
    assert(window_key(b).last() == 'w');
}

/// What a message is recognised by tells messages apart: two messages of one line share
/// it only where their texts and their descriptions are the same.
pub proof fn law_fingerprints_tell_messages_apart(
    a: Seq<char>,
    b: Seq<char>,
    desc_a: Seq<char>,
    desc_b: Seq<char>,
)
    requires
        !a.contains('\n'),
        !b.contains('\n'),
        fingerprint(a, Some(desc_a)) == fingerprint(b, Some(desc_b)),
    ensures
        a == b,
        desc_a == desc_b,
{
    reveal_strlit("\n");
    let fa = fingerprint(a, Some(desc_a));
    let fb = fingerprint(b, Some(desc_b));
    assert(fa[a.len() as int] == '\n');
    assert(fb[b.len() as int] == '\n');
    if a.len() < b.len() {
        assert(fb[a.len() as int] == b[a.len() as int]);
    } else if b.len() < a.len() {
        assert(fa[b.len() as int] == a[b.len() as int]);
    }
    assert(a =~= fa.take(a.len() as int));
    assert(b =~= fb.take(a.len() as int));
    assert(desc_a =~= fa.skip(a.len() as int + 1));
    assert(desc_b =~= fb.skip(a.len() as int + 1));
}

/// An obsolete collection that is still there is deleted, and one that is gone is not.
pub proof fn law_obsolete_collections_are_deleted(exists_at: bool)
    ensures
        doomed_collections(seq![exists_at]) == (if exists_at {
            seq!["lore"@]
        } else {
            Seq::empty()
        }),
{
    assert(seq![exists_at].drop_last() =~= Seq::empty());
    reveal_with_fuel(doomed_collections, 2);
    assert(doomed_collections(Seq::empty()) =~= Seq::empty());
    assert(doomed_collections(seq![exists_at]) =~= (if exists_at {
        seq!["lore"@]
    } else {
        Seq::empty()
    }));
}

/// A message without a description is recognised like one whose description is empty.
pub proof fn law_no_description_is_an_empty_one(text: Seq<char>)
    ensures
        fingerprint(text, None) == fingerprint(text, Some(Seq::empty())),
{
    assert(text + "\n"@ + Seq::<char>::empty() =~= text + "\n"@);
}

/// The error of a collection names what was done and to which collection, and what was
/// reported.
pub proof fn law_collection_errors_name_the_collection(
    what: Seq<char>,
    collection: Seq<char>,
    e: Seq<char>,
)
    ensures
        collection_error(what, collection, e) == ErrorView::Qdrant(
            what + "("@ + collection + "): "@ + e,
        ),
{
}

} // verus!
