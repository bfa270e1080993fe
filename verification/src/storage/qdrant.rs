//! Qdrant: collections, points and search.
use vstd::prelude::*;

use crate::error::{joined, Error, ErrorView};
use crate::float_bits::FloatBits;
use crate::text::{push_text, same};

verus! {

/// The length of a vector.
pub const VECTOR_DIM: u64 = 1024;

/// The collection of the summaries.
pub const SUMMARIES_COLLECTION: &'static str = "episodic_summaries";
/// The collection of the facts about users.
pub const FACTS_COLLECTION: &'static str = "user_facts";
/// The collection of the events.
pub const EVENTS_COLLECTION: &'static str = "chat_events";
/// The collection of the descriptions of media.
pub const MEDIA_COLLECTION: &'static str = "media_descriptions";
/// The collection of the examples of the bot's style.
pub const SHOTS_COLLECTION: &'static str = "style_shots";
/// The collection of the lore.
pub const LORE_COLLECTION: &'static str = "lore";

/// The collections that the bot needs.
pub const COLLECTIONS: [&'static str; 5] = [
    SUMMARIES_COLLECTION,
    FACTS_COLLECTION,
    EVENTS_COLLECTION,
    MEDIA_COLLECTION,
    SHOTS_COLLECTION,
];

/// The collections that the bot no longer needs.
pub const OBSOLETE: [&'static str; 1] = [LORE_COLLECTION];

/// A value of a point's payload, as far as the bot reads it.
pub enum PayloadValue {
    Int(i64),
    Text(String),
    Other,
}

/// A payload: names and values.
pub type Payload = Vec<(String, PayloadValue)>;

/// A value as a mathematical value.
#[verifier::ext_equal]
pub enum PayloadValueView {
    Int(i64),
    Text(Seq<char>),
    Other,
}

/// A payload as a mathematical value.
pub type PayloadView = Seq<(Seq<char>, PayloadValueView)>;

impl DeepView for PayloadValue {
    type V = PayloadValueView;

    open spec fn deep_view(&self) -> PayloadValueView {
        match self {
            PayloadValue::Int(i) => PayloadValueView::Int(*i),
            PayloadValue::Text(t) => PayloadValueView::Text(t@),
            PayloadValue::Other => PayloadValueView::Other,
        }
    }
}

/// A hit of a search for similar vectors.
pub struct SearchHit {
    pub score: FloatBits,
    pub payload: Payload,
}

/// A hit as a mathematical value.
#[verifier::ext_equal]
pub struct SearchHitView {
    pub score: FloatBits,
    pub payload: PayloadView,
}

impl DeepView for SearchHit {
    type V = SearchHitView;

    open spec fn deep_view(&self) -> SearchHitView {
        SearchHitView { score: self.score, payload: self.payload.deep_view() }
    }
}

/// The value under `name`: the first with that name.
pub open spec fn lookup(p: PayloadView, name: Seq<char>) -> Option<PayloadValueView>
    decreases p.len(),
{
    if p.len() == 0 {
        None
    } else if p[0].0 == name {
        Some(p[0].1)
    } else {
        lookup(p.drop_first(), name)
    }
}

/// The number under `name`, where there is one.
pub open spec fn int_under(p: PayloadView, name: Seq<char>) -> Option<i64> {
    match lookup(p, name) {
        Some(PayloadValueView::Int(i)) => Some(i),
        _ => None,
    }
}

/// The text under `name`, where there is one.
pub open spec fn text_under(p: PayloadView, name: Seq<char>) -> Option<Seq<char>> {
    match lookup(p, name) {
        Some(PayloadValueView::Text(t)) => Some(t),
        _ => None,
    }
}

fn find_value<'a>(p: &'a Payload, name: &str) -> (r: Option<&'a PayloadValue>)
    ensures
        match r {
            Some(v) => lookup(p.deep_view(), name@) == Some(v.deep_view()),
            None => lookup(p.deep_view(), name@) is None,
        },
{
    let ghost all = p.deep_view();
    assert(all.skip(0) =~= all);
    for i in 0..p.len()
        invariant
            all == p.deep_view(),
            lookup(all, name@) == lookup(all.skip(i as int), name@),
    {
        assert(all.skip(i as int)[0] == p@[i as int].deep_view());
        assert(all.skip(i as int).drop_first() =~= all.skip(i as int + 1));
        if same(p[i].0.as_str(), name) {
            return Some(&p[i].1);
        }
    }
    None
}

/// The number under `name`, where there is one.
pub fn payload_int(p: &Payload, name: &str) -> (r: Option<i64>)
    ensures
        r == int_under(p.deep_view(), name@),
{
    match find_value(p, name) {
        Some(PayloadValue::Int(i)) => Some(*i),
        _ => None,
    }
}

/// The text under `name`, where there is one.
pub fn payload_text(p: &Payload, name: &str) -> (r: Option<String>)
    ensures
        r.deep_view() == text_under(p.deep_view(), name@),
{
    match find_value(p, name) {
        Some(PayloadValue::Text(t)) => Some(t.clone()),
        _ => None,
    }
}

/// Appends a number to a payload.
pub fn push_int(p: &mut Payload, name: &str, value: i64)
    ensures
        final(p).deep_view() == old(p).deep_view().push((name@, PayloadValueView::Int(value))),
{
    p.push((name.to_owned(), PayloadValue::Int(value)));
    assert(p.deep_view() =~= old(p).deep_view().push((name@, PayloadValueView::Int(value))));
}

/// Appends a text to a payload.
pub fn push_value_text(p: &mut Payload, name: &str, value: &str)
    ensures
        final(p).deep_view() == old(p).deep_view().push((name@, PayloadValueView::Text(value@))),
{
    p.push((name.to_owned(), PayloadValue::Text(value.to_owned())));
    assert(p.deep_view() =~= old(p).deep_view().push((name@, PayloadValueView::Text(value@))));
}

/// The row numbers of the hits that have one, in their order.
pub open spec fn row_ids(hits: Seq<SearchHitView>) -> Seq<i64>
    decreases hits.len(),
{
    if hits.len() == 0 {
        Seq::empty()
    } else {
        match int_under(hits.last().payload, "sqlite_id"@) {
            Some(id) => row_ids(hits.drop_last()).push(id),
            None => row_ids(hits.drop_last()),
        }
    }
}

/// The row numbers of the hits that have one, in their order.
pub fn sqlite_ids(hits: &Vec<SearchHit>) -> (r: Vec<i64>)
    ensures
        r@ == row_ids(hits.deep_view()),
{
    let ghost all = hits.deep_view();
    let mut out: Vec<i64> = Vec::new();
    assert(out@ =~= row_ids(all.take(0)));
    for i in 0..hits.len()
        invariant
            all == hits.deep_view(),
            out@ == row_ids(all.take(i as int)),
    {
        assert(all[i as int] == hits@[i as int].deep_view());
        assert(all.take(i + 1).drop_last() =~= all.take(i as int));
        if let Some(id) = payload_int(&hits[i].payload, "sqlite_id") {
            out.push(id);
        }
    }
    assert(all.take(hits@.len() as int) =~= all);
    out
}

/// The texts that are there, in their order.
pub open spec fn present(texts: Seq<Option<Seq<char>>>) -> Seq<Seq<char>>
    decreases texts.len(),
{
    if texts.len() == 0 {
        Seq::empty()
    } else {
        match texts.last() {
            Some(t) => present(texts.drop_last()).push(t),
            None => present(texts.drop_last()),
        }
    }
}

/// The texts that are there, in their order.
pub fn found(texts: &Vec<Option<String>>) -> (r: Vec<String>)
    ensures
        r.deep_view() == present(texts.deep_view()),
{
    let ghost all = texts.deep_view();
    let mut out: Vec<String> = Vec::new();
    assert(out.deep_view() =~= present(all.take(0)));
    for i in 0..texts.len()
        invariant
            all == texts.deep_view(),
            out.deep_view() == present(all.take(i as int)),
    {
        assert(all[i as int] == texts@[i as int].deep_view());
        assert(all.take(i + 1).drop_last() =~= all.take(i as int));
        if let Some(t) = &texts[i] {
            push_text(&mut out, t.as_str());
        }
    }
    assert(all.take(texts@.len() as int) =~= all);
    out
}

/// The texts under `name` of the hits that have one, in their order.
pub open spec fn hit_texts(hits: Seq<SearchHitView>, name: Seq<char>) -> Seq<Seq<char>>
    decreases hits.len(),
{
    if hits.len() == 0 {
        Seq::empty()
    } else {
        match text_under(hits.last().payload, name) {
            Some(t) => hit_texts(hits.drop_last(), name).push(t),
            None => hit_texts(hits.drop_last(), name),
        }
    }
}

/// The texts under `name` of the hits that have one, in their order.
pub fn texts_of_hits(hits: &Vec<SearchHit>, name: &str) -> (r: Vec<String>)
    ensures
        r.deep_view() == hit_texts(hits.deep_view(), name@),
{
    let ghost all = hits.deep_view();
    let mut out: Vec<String> = Vec::new();
    assert(out.deep_view() =~= hit_texts(all.take(0), name@));
    for i in 0..hits.len()
        invariant
            all == hits.deep_view(),
            out.deep_view() == hit_texts(all.take(i as int), name@),
    {
        assert(all[i as int] == hits@[i as int].deep_view());
        assert(all.take(i + 1).drop_last() =~= all.take(i as int));
        if let Some(t) = payload_text(&hits[i].payload, name) {
            push_text(&mut out, t.as_str());
        }
    }
    assert(all.take(hits@.len() as int) =~= all);
    out
}

/// The error of an operation on a collection.
pub open spec fn collection_error(
    what: Seq<char>,
    collection: Seq<char>,
    e: Seq<char>,
) -> ErrorView {
    ErrorView::Qdrant(what + "("@ + collection + "): "@ + e)
}

/// The error of an operation on a collection, such as `search(chat_events): ...`.
pub fn failed_on(what: &str, collection: &str, e: &str) -> (r: Error)
    ensures
        r.deep_view() == collection_error(what@, collection@, e@),
{
    let mut s = what.to_owned();
    s.append("(");
    s.append(collection);
    s.append("): ");
    s.append(e);
    Error::Qdrant(s)
}

/// A search for similar vectors: at most `limit` hits, the most similar first, whose
/// payloads hold all the numbers in `must`.
pub struct SearchQuery {
    pub collection: String,
    pub limit: u64,
    pub must: Vec<(String, i64)>,
}

/// A search as a mathematical value.
#[verifier::ext_equal]
pub struct SearchQueryView {
    pub collection: Seq<char>,
    pub limit: u64,
    pub must: Seq<(Seq<char>, i64)>,
}

impl DeepView for SearchQuery {
    type V = SearchQueryView;

    open spec fn deep_view(&self) -> SearchQueryView {
        SearchQueryView {
            collection: self.collection@,
            limit: self.limit,
            must: self.must.deep_view(),
        }
    }
}

/// A search within one chat.
pub open spec fn chat_query(collection: Seq<char>, chat_id: i64, top_k: u32) -> SearchQueryView {
    SearchQueryView { collection, limit: top_k as u64, must: seq![("chat_id"@, chat_id)] }
}

/// A search for facts about one user in one chat.
pub open spec fn facts_query(chat_id: i64, user_id: i64, top_k: u32) -> SearchQueryView {
    SearchQueryView {
        collection: FACTS_COLLECTION@,
        limit: top_k as u64,
        must: seq![("chat_id"@, chat_id), ("user_id"@, user_id)],
    }
}

/// A search within one chat.
pub fn search_similar(collection: &str, chat_id: i64, top_k: u32) -> (r: SearchQuery)
    ensures
        r.deep_view() == chat_query(collection@, chat_id, top_k),
{
    let mut must: Vec<(String, i64)> = Vec::new();
    must.push(("chat_id".to_owned(), chat_id));
    assert(must.deep_view() =~= seq![("chat_id"@, chat_id)]);
    SearchQuery { collection: collection.to_owned(), limit: top_k as u64, must }
}

/// A search for facts about one user in one chat.
pub fn search_similar_user_facts(chat_id: i64, user_id: i64, top_k: u32) -> (r: SearchQuery)
    ensures
        r.deep_view() == facts_query(chat_id, user_id, top_k),
{
    let mut must: Vec<(String, i64)> = Vec::new();
    must.push(("chat_id".to_owned(), chat_id));
    must.push(("user_id".to_owned(), user_id));
    assert(must.deep_view() =~= seq![("chat_id"@, chat_id), ("user_id"@, user_id)]);
    SearchQuery { collection: FACTS_COLLECTION.to_owned(), limit: top_k as u64, must }
}

/// What making sure of the collections asks for next.
pub enum EnsureAction {
    /// Ask whether this collection exists.
    Check(&'static str),
    /// Create this collection: vectors of length `VECTOR_DIM`, compared by cosine, kept
    /// on disk.
    Create(&'static str),
    /// All collections exist.
    Done,
    /// Give up.
    Fail(Error),
}

/// What happened since the last step.
pub enum EnsureEvent {
    /// The collection exists.
    Exists,
    /// The collection does not exist.
    Missing,
    /// The collection was created.
    Created,
    /// What was asked for failed.
    Failed(String),
}

/// Making sure of the collections: those before `at` exist.
#[derive(Clone, Copy, Debug, PartialEq, Eq, Structural)]
pub struct EnsureRun {
    pub at: usize,
    pub creating: bool,
}

impl EnsureRun {
    /// There is a collection at hand, or all are done.
    pub open spec fn wf(self) -> bool {
        self.at <= COLLECTIONS@.len()
    }

    /// The action that looks at the collection at hand.
    pub open spec fn look(self) -> EnsureAction {
        if self.at < COLLECTIONS@.len() {
            EnsureAction::Check(COLLECTIONS@[self.at as int])
        } else {
            EnsureAction::Done
        }
    }

    /// Looks at the first collection.
    pub fn start() -> (r: (EnsureRun, EnsureAction))
        ensures
            r.0 == (EnsureRun { at: 0, creating: false }),
            r.1 == r.0.look(),
    {
        let run = EnsureRun { at: 0, creating: false };
        let action = run.look_at();
        (run, action)
    }

    fn look_at(&self) -> (r: EnsureAction)
        requires
            self.wf(),
        ensures
            r == self.look(),
    {
        let all = COLLECTIONS;
        if self.at < all.len() {
            EnsureAction::Check(all[self.at])
        } else {
            EnsureAction::Done
        }
    }
}

/// Makes sure that every collection exists: asks for each in turn and creates those
/// that are missing. Those that exist are left alone.
pub fn ensure_collections(run: &mut EnsureRun, event: &EnsureEvent) -> (r: EnsureAction)
    requires
        old(run).at < COLLECTIONS@.len(),
    ensures
        final(run).wf(),
        match (*event, old(run).creating) {
            (EnsureEvent::Failed(e), creating) => {
                &&& *final(run) == *old(run)
                &&& r matches EnsureAction::Fail(err) && err.deep_view() == collection_error(
                    if creating {
                        "create_collection"@
                    } else {
                        "collection_exists"@
                    },
                    COLLECTIONS@[old(run).at as int]@,
                    e@,
                )
            },
            (EnsureEvent::Missing, false) => {
                &&& *final(run) == (EnsureRun { at: old(run).at, creating: true })
                &&& r == EnsureAction::Create(COLLECTIONS@[old(run).at as int])
            },
            _ => {
                &&& *final(run) == (EnsureRun { at: (old(run).at + 1) as usize, creating: false })
                &&& r == final(run).look()
            },
        },
{
    let all = COLLECTIONS;
    let name = all[run.at];
    match event {
        EnsureEvent::Failed(e) => {
            let what = if run.creating {
                "create_collection"
            } else {
                "collection_exists"
            };
            EnsureAction::Fail(failed_on(what, name, e.as_str()))
        },
        EnsureEvent::Missing if !run.creating => {
            run.creating = true;
            EnsureAction::Create(name)
        },
        _ => {
            run.at = run.at + 1;
            run.creating = false;
            run.look_at()
        },
    }
}

/// The obsolete collections among those that exist.
pub open spec fn doomed_collections(exists_at: Seq<bool>) -> Seq<Seq<char>>
    decreases exists_at.len(),
{
    if exists_at.len() == 0 {
        Seq::empty()
    } else {
        let before = doomed_collections(exists_at.drop_last());
        if exists_at.last() && exists_at.len() <= OBSOLETE@.len() {
            before.push(OBSOLETE@[exists_at.len() - 1]@)
        } else {
            before
        }
    }
}

/// Which obsolete collections to delete, given which of them exist; one that could
/// not be asked for counts as missing.
pub fn cleanup_obsolete_collections(exists_at: &Vec<bool>) -> (r: Vec<String>)
    ensures
        r.deep_view() == doomed_collections(exists_at@),
{
    let all = OBSOLETE;
    let mut out: Vec<String> = Vec::new();
    assert(out.deep_view() =~= doomed_collections(exists_at@.take(0)));
    for i in 0..exists_at.len()
        invariant
            all == OBSOLETE,
            out.deep_view() == doomed_collections(exists_at@.take(i as int)),
    {
        assert(exists_at@.take(i + 1).drop_last() =~= exists_at@.take(i as int));
        if exists_at[i] && i < all.len() {
            push_text(&mut out, all[i]);
        }
    }
    assert(exists_at@.take(exists_at@.len() as int) =~= exists_at@);
    out
}

/// The first required collection from `from` on that is not among `names`.
pub open spec fn first_missing(names: Seq<Seq<char>>, from: int) -> Option<Seq<char>>
    decreases COLLECTIONS@.len() - from,
{
    if from < 0 || from >= COLLECTIONS@.len() {
        None
    } else if names.contains(COLLECTIONS@[from]@) {
        first_missing(names, from + 1)
    } else {
        Some(COLLECTIONS@[from]@)
    }
}

fn listed(names: &Vec<String>, name: &str) -> (r: bool)
    ensures
        r == names.deep_view().contains(name@),
{
    for i in 0..names.len()
        invariant
            forall|k: int| 0 <= k < i ==> names.deep_view()[k] != name@,
    {
        assert(names.deep_view()[i as int] == names@[i as int]@);
        if same(names[i].as_str(), name) {
            return true;
        }
    }
    false
}

/// Holds the collections that exist against those that the bot needs: an error names
/// the first that is missing.
pub fn healthcheck(names: &Vec<String>) -> (r: Result<(), Error>)
    ensures
        match r {
            Ok(_) => first_missing(names.deep_view(), 0) is None,
            Err(e) => first_missing(names.deep_view(), 0) is Some && e.deep_view()
                == ErrorView::Qdrant(
                "missing collection: "@ + first_missing(names.deep_view(), 0)->0,
            ),
        },
{
    let all = COLLECTIONS;
    for i in 0..all.len()
        invariant
            all == COLLECTIONS,
            first_missing(names.deep_view(), 0) == first_missing(names.deep_view(), i as int),
    {
        if !listed(names, all[i]) {
            return Err(Error::Qdrant(joined("missing collection: ", all[i])));
        }
    }
    Ok(())
}

/// The store is healthy exactly where every collection is there.
pub proof fn law_healthy_iff_complete(names: Seq<Seq<char>>)
    ensures
        first_missing(names, 0) is None <==> forall|i: int|
            0 <= i < COLLECTIONS@.len() ==> names.contains(#[trigger] COLLECTIONS@[i]@),
{
    lemma_missing_from(names, 0);
}

proof fn lemma_missing_from(names: Seq<Seq<char>>, from: int)
    requires
        0 <= from,
    ensures
        first_missing(names, from) is None <==> forall|i: int|
            from <= i < COLLECTIONS@.len() ==> names.contains(#[trigger] COLLECTIONS@[i]@),
    decreases COLLECTIONS@.len() - from,
{
    if from < COLLECTIONS@.len() {
        lemma_missing_from(names, from + 1);
    }
}

/// The clean-up never deletes a collection that the bot needs.
pub proof fn law_cleanup_spares_what_is_needed(exists_at: Seq<bool>)
    ensures
        forall|i: int, k: int|
            #![trigger doomed_collections(exists_at)[i], COLLECTIONS@[k]]
            0 <= i < doomed_collections(exists_at).len() && 0 <= k < COLLECTIONS@.len()
                ==> doomed_collections(exists_at)[i] != COLLECTIONS@[k]@,
    decreases exists_at.len(),
{
    reveal_strlit("lore");
    reveal_strlit("episodic_summaries");
    reveal_strlit("user_facts");
    reveal_strlit("chat_events");
    reveal_strlit("media_descriptions");
    reveal_strlit("style_shots");
    if exists_at.len() > 0 {
        let before = doomed_collections(exists_at.drop_last());
        let all = doomed_collections(exists_at);
        law_cleanup_spares_what_is_needed(exists_at.drop_last());
        assert forall|i: int, k: int|
            #![trigger all[i], COLLECTIONS@[k]]
            0 <= i < all.len() && 0 <= k < COLLECTIONS@.len() implies all[i]
            != COLLECTIONS@[k]@ by {
            if i < before.len() {
                assert(all[i] == before[i]);
            } else {
                assert(all[i] == "lore"@);
                assert(COLLECTIONS@[k]@.len() > 4);
            }
        }
    }
}

} // verus!
