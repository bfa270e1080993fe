//! Writing a memory: a row in SQLite, then a point in Qdrant that points at it.
use vstd::prelude::*;

use crate::error::{Error, ErrorView};
use crate::storage::qdrant::{lookup, push_int, Payload, PayloadValueView, PayloadView};

verus! {

/// What happened since the last step.
pub enum StoreEvent {
    /// The row was inserted.
    Inserted,
    /// The row has this number.
    Row(i64),
    /// The point was written.
    Upserted,
    /// What was asked for failed.
    Failed(Error),
}

/// What happened, as a mathematical value.
#[verifier::ext_equal]
pub enum StoreEventView {
    Inserted,
    Row(i64),
    Upserted,
    Failed(ErrorView),
}

/// What writing a memory does next.
pub enum StoreStep {
    /// Insert the row.
    InsertRow,
    /// Look the row's number up, by the point's id.
    FindRow,
    /// Write the point with this payload.
    Upsert(Payload),
    /// The memory was written; this is its row.
    Done(i64),
    /// The memory was not written whole.
    Fail(Error),
}

/// A step as a mathematical value.
#[verifier::ext_equal]
pub enum StoreStepView {
    InsertRow,
    FindRow,
    Upsert(PayloadView),
    Done(i64),
    Fail(ErrorView),
}

impl DeepView for StoreEvent {
    type V = StoreEventView;

    open spec fn deep_view(&self) -> StoreEventView {
        match self {
            StoreEvent::Inserted => StoreEventView::Inserted,
            StoreEvent::Row(id) => StoreEventView::Row(*id),
            StoreEvent::Upserted => StoreEventView::Upserted,
            StoreEvent::Failed(e) => StoreEventView::Failed(e.deep_view()),
        }
    }
}

impl DeepView for StoreStep {
    type V = StoreStepView;

    open spec fn deep_view(&self) -> StoreStepView {
        match self {
            StoreStep::InsertRow => StoreStepView::InsertRow,
            StoreStep::FindRow => StoreStepView::FindRow,
            StoreStep::Upsert(p) => StoreStepView::Upsert(p.deep_view()),
            StoreStep::Done(id) => StoreStepView::Done(*id),
            StoreStep::Fail(e) => StoreStepView::Fail(e.deep_view()),
        }
    }
}

/// The payload with the number of the row that the point belongs to.
pub open spec fn pointing_at(payload: PayloadView, id: i64) -> PayloadView {
    payload.push(("sqlite_id"@, PayloadValueView::Int(id)))
}

/// The next step of writing a memory whose point has this payload.
pub open spec fn store_step(payload: PayloadView, seen: Seq<StoreEventView>) -> StoreStepView {
    if seen.len() == 0 {
        StoreStepView::InsertRow
    } else if let StoreEventView::Failed(e) = seen[0] {
        StoreStepView::Fail(e)
    } else if seen.len() == 1 {
        StoreStepView::FindRow
    } else {
        match seen[1] {
            StoreEventView::Row(id) => if seen.len() == 2 {
                StoreStepView::Upsert(pointing_at(payload, id))
            } else if let StoreEventView::Failed(e) = seen[2] {
                StoreStepView::Fail(e)
            } else {
                StoreStepView::Done(id)
            },
            StoreEventView::Failed(e) => StoreStepView::Fail(e),
            _ => StoreStepView::Fail(ErrorView::Other("event out of turn"@)),
        }
    }
}

/// Writes a memory: the row, its number, and the point that points at it. The first
/// failure ends it.
pub fn store(payload: Payload, seen: &[StoreEvent]) -> (r: StoreStep)
    ensures
        r.deep_view() == store_step(payload.deep_view(), seen.deep_view()),
{
    if seen.len() == 0 {
        return StoreStep::InsertRow;
    }
    assert(seen.deep_view()[0] == seen@[0].deep_view());
    if let StoreEvent::Failed(e) = &seen[0] {
        return StoreStep::Fail(e.copy());
    }
    if seen.len() == 1 {
        return StoreStep::FindRow;
    }
    assert(seen.deep_view()[1] == seen@[1].deep_view());
    match &seen[1] {
        StoreEvent::Row(id) => {
            if seen.len() == 2 {
                let mut p = payload;
                push_int(&mut p, "sqlite_id", *id);
                return StoreStep::Upsert(p);
            }
            assert(seen.deep_view()[2] == seen@[2].deep_view());
            if let StoreEvent::Failed(e) = &seen[2] {
                return StoreStep::Fail(e.copy());
            }
            StoreStep::Done(*id)
        },
        StoreEvent::Failed(e) => StoreStep::Fail(e.copy()),
        _ => StoreStep::Fail(Error::Other("event out of turn".to_owned())),
    }
}

/// A point that was written leads back to its row: its payload gives the row's
/// number, and every other value as it was.
pub proof fn law_point_leads_to_row(payload: PayloadView, id: i64, name: Seq<char>)
    requires
        lookup(payload, "sqlite_id"@) is None,
    ensures
        lookup(pointing_at(payload, id), "sqlite_id"@) == Some(PayloadValueView::Int(id)),
        name != "sqlite_id"@ ==> lookup(pointing_at(payload, id), name) == lookup(payload, name),
    decreases payload.len(),
{
    let p = pointing_at(payload, id);
    if payload.len() == 0 {
        assert(p.drop_first() =~= Seq::empty());
    } else {
        assert(p.drop_first() =~= pointing_at(payload.drop_first(), id));
        law_point_leads_to_row(payload.drop_first(), id, name);
    }
}

} // verus!
