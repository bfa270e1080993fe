//! Summaries of a chat's past.
use vstd::prelude::*;

use crate::memory::retrieval::{hits_step, retrieve_hits, RetrieveEvent, RetrieveStep};
use crate::storage::qdrant::{chat_query, search_similar, SUMMARIES_COLLECTION};

verus! {

/// The summaries of a chat that are closest to a vector, at most `top_k` of them;
/// none where anything fails.
pub fn retrieve_relevant_summaries(chat_id: i64, top_k: u32, seen: &[RetrieveEvent]) -> (r:
    RetrieveStep)
    ensures
        r.deep_view() == hits_step(
            chat_query(SUMMARIES_COLLECTION@, chat_id, top_k),
            "text"@,
            seen.deep_view(),
        ),
{
    retrieve_hits(search_similar(SUMMARIES_COLLECTION, chat_id, top_k), "text", seen)
}

} // verus!
