//! Reading memories: a search for similar vectors, then the texts of the rows that
//! the hits point at. It never holds up an answer: whatever fails, it ends with no
//! texts.
use vstd::prelude::*;

use crate::storage::qdrant::{
    found, hit_texts, present, row_ids, sqlite_ids, texts_of_hits, SearchHit, SearchHitView,
    SearchQuery, SearchQueryView, EVENTS_COLLECTION, FACTS_COLLECTION, LORE_COLLECTION,
};

verus! {

/// Where the texts of a memory stand.
#[derive(Clone, Copy, Debug, PartialEq, Eq, Structural)]
pub enum Table {
    ChatEvents,
    Lore,
    UserFacts,
}

impl Table {
    /// The collection of the points of the table's rows.
    pub fn collection(self) -> (r: &'static str)
        ensures
            r@ == (match self {
                Table::ChatEvents => EVENTS_COLLECTION@,
                Table::Lore => LORE_COLLECTION@,
                Table::UserFacts => FACTS_COLLECTION@,
            }),
    {
        match self {
            Table::ChatEvents => EVENTS_COLLECTION,
            Table::Lore => LORE_COLLECTION,
            Table::UserFacts => FACTS_COLLECTION,
        }
    }
}

/// What happened since the last step.
pub enum RetrieveEvent {
    /// The text was embedded.
    Embedded,
    /// The search gave these hits.
    Hits(Vec<SearchHit>),
    /// The rows gave these texts; none where a row is gone.
    Texts(Vec<Option<String>>),
    /// What was asked for failed.
    Failed,
}

/// What happened, as a mathematical value.
#[verifier::ext_equal]
pub enum RetrieveEventView {
    Embedded,
    Hits(Seq<SearchHitView>),
    Texts(Seq<Option<Seq<char>>>),
    Failed,
}

/// What reading a memory does next.
pub enum RetrieveStep {
    /// Embed this text, to search with its vector.
    Embed(String),
    /// Search.
    Search(SearchQuery),
    /// Read the texts of these rows, each by itself.
    Rows(Table, Vec<i64>),
    /// These are the texts.
    Done(Vec<String>),
}

/// A step as a mathematical value.
#[verifier::ext_equal]
pub enum RetrieveStepView {
    Embed(Seq<char>),
    Search(SearchQueryView),
    Rows(Table, Seq<i64>),
    Done(Seq<Seq<char>>),
}

impl DeepView for RetrieveEvent {
    type V = RetrieveEventView;

    open spec fn deep_view(&self) -> RetrieveEventView {
        match self {
            RetrieveEvent::Embedded => RetrieveEventView::Embedded,
            RetrieveEvent::Hits(h) => RetrieveEventView::Hits(h.deep_view()),
            RetrieveEvent::Texts(t) => RetrieveEventView::Texts(t.deep_view()),
            RetrieveEvent::Failed => RetrieveEventView::Failed,
        }
    }
}

impl DeepView for RetrieveStep {
    type V = RetrieveStepView;

    open spec fn deep_view(&self) -> RetrieveStepView {
        match self {
            RetrieveStep::Embed(t) => RetrieveStepView::Embed(t@),
            RetrieveStep::Search(q) => RetrieveStepView::Search(q.deep_view()),
            RetrieveStep::Rows(t, ids) => RetrieveStepView::Rows(*t, ids@),
            RetrieveStep::Done(v) => RetrieveStepView::Done(v.deep_view()),
        }
    }
}

/// The next step of a search whose hits point at rows of `table`.
pub open spec fn rows_step(
    query: SearchQueryView,
    table: Table,
    seen: Seq<RetrieveEventView>,
) -> RetrieveStepView {
    if query.limit == 0 {
        RetrieveStepView::Done(Seq::empty())
    } else if seen.len() == 0 {
        RetrieveStepView::Search(query)
    } else {
        match seen[0] {
            RetrieveEventView::Hits(h) => if seen.len() == 1 {
                RetrieveStepView::Rows(table, row_ids(h))
            } else {
                match seen[1] {
                    RetrieveEventView::Texts(t) => RetrieveStepView::Done(present(t)),
                    _ => RetrieveStepView::Done(Seq::empty()),
                }
            },
            _ => RetrieveStepView::Done(Seq::empty()),
        }
    }
}

/// The next step where the text to search with is embedded first.
pub open spec fn embedded_rows_step(
    text: Seq<char>,
    query: SearchQueryView,
    table: Table,
    seen: Seq<RetrieveEventView>,
) -> RetrieveStepView {
    if query.limit == 0 {
        RetrieveStepView::Done(Seq::empty())
    } else if seen.len() == 0 {
        RetrieveStepView::Embed(text)
    } else if seen[0] is Embedded {
        rows_step(query, table, seen.skip(1))
    } else {
        RetrieveStepView::Done(Seq::empty())
    }
}

/// The next step of a search whose hits hold the texts themselves, under `name`.
pub open spec fn hits_step(
    query: SearchQueryView,
    name: Seq<char>,
    seen: Seq<RetrieveEventView>,
) -> RetrieveStepView {
    if query.limit == 0 {
        RetrieveStepView::Done(Seq::empty())
    } else if seen.len() == 0 {
        RetrieveStepView::Search(query)
    } else {
        match seen[0] {
            RetrieveEventView::Hits(h) => RetrieveStepView::Done(hit_texts(h, name)),
            _ => RetrieveStepView::Done(Seq::empty()),
        }
    }
}

fn nothing() -> (r: RetrieveStep)
    ensures
        r.deep_view() == RetrieveStepView::Done(Seq::empty()),
{
    let v: Vec<String> = Vec::new();
    assert(v.deep_view() =~= Seq::<Seq<char>>::empty());
    RetrieveStep::Done(v)
}

/// Searches, and reads the rows of `table` that the hits point at.
pub fn retrieve_rows(query: SearchQuery, table: Table, seen: &[RetrieveEvent]) -> (r: RetrieveStep)
    ensures
        r.deep_view() == rows_step(query.deep_view(), table, seen.deep_view()),
{
    if query.limit == 0 {
        return nothing();
    }
    if seen.len() == 0 {
        return RetrieveStep::Search(query);
    }
    assert(seen.deep_view()[0] == seen@[0].deep_view());
    match &seen[0] {
        RetrieveEvent::Hits(h) => {
            if seen.len() == 1 {
                return RetrieveStep::Rows(table, sqlite_ids(h));
            }
            assert(seen.deep_view()[1] == seen@[1].deep_view());
            match &seen[1] {
                RetrieveEvent::Texts(t) => RetrieveStep::Done(found(t)),
                _ => nothing(),
            }
        },
        _ => nothing(),
    }
}

/// Embeds a text, searches with its vector, and reads the rows of `table` that the
/// hits point at.
pub fn retrieve_embedded_rows(
    text: &str,
    query: SearchQuery,
    table: Table,
    seen: &[RetrieveEvent],
) -> (r: RetrieveStep)
    ensures
        r.deep_view() == embedded_rows_step(
            text@,
            query.deep_view(),
            table,
            seen.deep_view(),
        ),
{
    if query.limit == 0 {
        return nothing();
    }
    if seen.len() == 0 {
        return RetrieveStep::Embed(text.to_owned());
    }
    assert(seen.deep_view()[0] == seen@[0].deep_view());
    match &seen[0] {
        RetrieveEvent::Embedded => {
            let rest = vstd::slice::slice_subrange(seen, 1, seen.len());
            assert(rest.deep_view() =~= seen.deep_view().skip(1));
            retrieve_rows(query, table, rest)
        },
        _ => nothing(),
    }
}

/// Searches, and takes the texts from the hits themselves.
pub fn retrieve_hits(query: SearchQuery, name: &str, seen: &[RetrieveEvent]) -> (r: RetrieveStep)
    ensures
        r.deep_view() == hits_step(query.deep_view(), name@, seen.deep_view()),
{
    if query.limit == 0 {
        return nothing();
    }
    if seen.len() == 0 {
        return RetrieveStep::Search(query);
    }
    assert(seen.deep_view()[0] == seen@[0].deep_view());
    match &seen[0] {
        RetrieveEvent::Hits(h) => RetrieveStep::Done(texts_of_hits(h, name)),
        _ => nothing(),
    }
}

/// Reading a memory never fails: a failure of any of its steps ends it with no
/// texts.
pub proof fn law_failure_gives_no_texts(
    text: Seq<char>,
    query: SearchQueryView,
    table: Table,
    name: Seq<char>,
    seen: Seq<RetrieveEventView>,
)
    requires
        1 <= seen.len() <= 3,
        seen.last() is Failed,
    ensures
        seen.len() <= 2 ==> rows_step(query, table, seen) == RetrieveStepView::Done(Seq::empty()),
        embedded_rows_step(text, query, table, seen) == RetrieveStepView::Done(Seq::empty()),
        seen.len() == 1 ==> hits_step(query, name, seen) == RetrieveStepView::Done(Seq::empty()),
{
}

/// No more texts come out than the search gave hits.
pub proof fn law_no_more_texts_than_hits(hits: Seq<SearchHitView>, name: Seq<char>)
    ensures
        row_ids(hits).len() <= hits.len(),
        hit_texts(hits, name).len() <= hits.len(),
    decreases hits.len(),
{
    if hits.len() > 0 {
        law_no_more_texts_than_hits(hits.drop_last(), name);
    }
}

} // verus!
