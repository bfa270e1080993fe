//! Lore: what a chat knows of itself, entered by hand.
use vstd::prelude::*;

use crate::encoding::{is_uuid, uuid_v4};
use crate::error::{Error, ErrorView};
use crate::memory::retrieval::{
    embedded_rows_step, retrieve_embedded_rows, RetrieveEvent, RetrieveStep, Table,
};
use crate::storage::qdrant::{
    chat_query, push_int, push_value_text, search_similar, Payload, PayloadValueView, PayloadView,
    LORE_COLLECTION,
};

verus! {

/// The lore of a chat that is closest to a text, at most `top_k` entries; none where
/// anything fails.
pub fn retrieve_relevant_lore(
    chat_id: i64,
    query_text: &str,
    top_k: u32,
    seen: &[RetrieveEvent],
) -> (r: RetrieveStep)
    ensures
        r.deep_view() == embedded_rows_step(
            query_text@,
            chat_query(LORE_COLLECTION@, chat_id, top_k),
            Table::Lore,
            seen.deep_view(),
        ),
{
    retrieve_embedded_rows(
        query_text,
        search_similar(LORE_COLLECTION, chat_id, top_k),
        Table::Lore,
        seen,
    )
}

/// The payload of a lore entry's point, but for the row.
pub open spec fn lore_payload(chat_id: i64, tags: Option<Seq<char>>) -> PayloadView {
    let base = seq![("chat_id"@, PayloadValueView::Int(chat_id))];
    match tags {
        Some(t) => base.push(("tags"@, PayloadValueView::Text(t))),
        None => base,
    }
}

/// A new lore entry's point: a fresh id, and the payload but for the row.
pub fn add_lore(chat_id: i64, tags: &Option<String>) -> (r: (String, Payload))
    ensures
        is_uuid(r.0@, '4'),
        r.1.deep_view() == lore_payload(chat_id, tags.deep_view()),
{
    let mut p: Payload = Vec::new();
    assert(p.deep_view() =~= Seq::empty());
    push_int(&mut p, "chat_id", chat_id);
    assert(p.deep_view() =~= seq![("chat_id"@, PayloadValueView::Int(chat_id))]);
    if let Some(t) = tags {
        push_value_text(&mut p, "tags", t.as_str());
    }
    (uuid_v4(), p)
}

/// What happened since the last step of a deletion.
pub enum DeleteEvent {
    /// The entry has this point, or there is no such entry.
    Point(Option<String>),
    /// What was asked for is done.
    Did,
    /// What was asked for failed.
    Failed(Error),
}

/// What happened, as a mathematical value.
#[verifier::ext_equal]
pub enum DeleteEventView {
    Point(Option<Seq<char>>),
    Did,
    Failed(ErrorView),
}

/// What a deletion does next.
pub enum DeleteStep {
    /// Look up the point of the entry.
    FindPoint,
    /// Delete the row.
    DeleteRow,
    /// Delete this point.
    DeletePoint(String),
    /// Whether there was such an entry.
    Done(bool),
    /// The entry was not deleted.
    Fail(Error),
}

/// A step as a mathematical value.
#[verifier::ext_equal]
pub enum DeleteStepView {
    FindPoint,
    DeleteRow,
    DeletePoint(Seq<char>),
    Done(bool),
    Fail(ErrorView),
}

impl DeepView for DeleteEvent {
    type V = DeleteEventView;

    open spec fn deep_view(&self) -> DeleteEventView {
        match self {
            DeleteEvent::Point(p) => DeleteEventView::Point(p.deep_view()),
            DeleteEvent::Did => DeleteEventView::Did,
            DeleteEvent::Failed(e) => DeleteEventView::Failed(e.deep_view()),
        }
    }
}

impl DeepView for DeleteStep {
    type V = DeleteStepView;

    open spec fn deep_view(&self) -> DeleteStepView {
        match self {
            DeleteStep::FindPoint => DeleteStepView::FindPoint,
            DeleteStep::DeleteRow => DeleteStepView::DeleteRow,
            DeleteStep::DeletePoint(p) => DeleteStepView::DeletePoint(p@),
            DeleteStep::Done(b) => DeleteStepView::Done(*b),
            DeleteStep::Fail(e) => DeleteStepView::Fail(e.deep_view()),
        }
    }
}

/// The next step of a deletion.
pub open spec fn delete_lore_step(seen: Seq<DeleteEventView>) -> DeleteStepView {
    if seen.len() == 0 {
        DeleteStepView::FindPoint
    } else {
        match seen[0] {
            DeleteEventView::Failed(e) => DeleteStepView::Fail(e),
            DeleteEventView::Point(Some(point)) => if seen.len() == 1 {
                DeleteStepView::DeleteRow
            } else if let DeleteEventView::Failed(e) = seen[1] {
                DeleteStepView::Fail(e)
            } else if seen.len() == 2 {
                DeleteStepView::DeletePoint(point)
            } else {
                DeleteStepView::Done(true)
            },
            _ => DeleteStepView::Done(false),
        }
    }
}

/// Deletes a lore entry: its row, and then its point. Ends in `false` where there is
/// no such entry. A point that cannot be deleted does not undo the deletion of the
/// row.
pub fn delete_lore(seen: &[DeleteEvent]) -> (r: DeleteStep)
    ensures
        r.deep_view() == delete_lore_step(seen.deep_view()),
{
    if seen.len() == 0 {
        return DeleteStep::FindPoint;
    }
    assert(seen.deep_view()[0] == seen@[0].deep_view());
    match &seen[0] {
        DeleteEvent::Failed(e) => DeleteStep::Fail(e.copy()),
        DeleteEvent::Point(Some(point)) => {
            if seen.len() == 1 {
                return DeleteStep::DeleteRow;
            }
            assert(seen.deep_view()[1] == seen@[1].deep_view());
            if let DeleteEvent::Failed(e) = &seen[1] {
                return DeleteStep::Fail(e.copy());
            }
            if seen.len() == 2 {
                return DeleteStep::DeletePoint(point.clone());
            }
            DeleteStep::Done(true)
        },
        _ => DeleteStep::Done(false),
    }
}

} // verus!
