//! Examples of the bot's style, found by similarity.
use vstd::prelude::*;
use vstd::utf8::encode_utf8;

use crate::encoding::{dns_uuid, is_uuid, uuid_v5_dns};
use crate::error::{Error, ErrorView};
use crate::llm::prompts::system::{FewShot, FewShotView};
use crate::storage::qdrant::{
    payload_text, push_value_text, text_under, Payload, PayloadValueView, PayloadView, SearchHit,
    SearchHitView, SearchQuery, SearchQueryView,
    SHOTS_COLLECTION,
};
use crate::text::text_or;

verus! {

/// The payload of an example's point.
pub open spec fn shot_payload(shot: FewShotView) -> PayloadView {
    seq![
        ("context"@, PayloadValueView::Text(shot.context)),
        ("reply"@, PayloadValueView::Text(shot.reply)),
    ]
}

/// An example's point: an id that depends on the context alone, so that seeding again
/// writes the same point again, and the payload.
pub fn seed_shot(shot: &FewShot) -> (r: (String, Payload))
    ensures
        r.0@ == dns_uuid(encode_utf8(shot.context@)),
        is_uuid(r.0@, '5'),
        r.1.deep_view() == shot_payload(shot.deep_view()),
{
    let id = uuid_v5_dns(shot.context.as_str().as_bytes());
    let mut p: Payload = Vec::new();
    assert(p.deep_view() =~= Seq::empty());
    push_value_text(&mut p, "context", shot.context.as_str());
    push_value_text(&mut p, "reply", shot.reply.as_str());
    assert(p.deep_view() =~= shot_payload(shot.deep_view()));
    (id, p)
}

/// What happened since the last step.
pub enum SeedEvent {
    /// What was asked for is done.
    Did,
    /// What was asked for failed.
    Failed(Error),
}

/// The same as a mathematical value.
#[verifier::ext_equal]
pub enum SeedEventView {
    Did,
    Failed(ErrorView),
}

/// What seeding does next.
pub enum SeedStep {
    /// Embed this text.
    Embed(String),
    /// Write the point with this id and payload and the vector that came last.
    Upsert { id: String, payload: Payload },
    /// All examples are written.
    Done,
    /// Seeding is given up.
    Fail(Error),
}

/// The same as a mathematical value.
#[verifier::ext_equal]
pub enum SeedStepView {
    Embed(Seq<char>),
    Upsert { id: Seq<char>, payload: PayloadView },
    Done,
    Fail(ErrorView),
}

impl DeepView for SeedEvent {
    type V = SeedEventView;

    open spec fn deep_view(&self) -> SeedEventView {
        match self {
            SeedEvent::Did => SeedEventView::Did,
            SeedEvent::Failed(e) => SeedEventView::Failed(e.deep_view()),
        }
    }
}

impl DeepView for SeedStep {
    type V = SeedStepView;

    open spec fn deep_view(&self) -> SeedStepView {
        match self {
            SeedStep::Embed(t) => SeedStepView::Embed(t@),
            SeedStep::Upsert { id, payload } => SeedStepView::Upsert {
                id: id@,
                payload: payload.deep_view(),
            },
            SeedStep::Done => SeedStepView::Done,
            SeedStep::Fail(e) => SeedStepView::Fail(e.deep_view()),
        }
    }
}

/// The first failure from `from` on.
pub open spec fn first_fault(seen: Seq<SeedEventView>, from: int) -> Option<ErrorView>
    decreases seen.len() - from,
{
    if from < 0 || from >= seen.len() {
        None
    } else {
        match seen[from] {
            SeedEventView::Failed(e) => Some(e),
            SeedEventView::Did => first_fault(seen, from + 1),
        }
    }
}

/// The next step of seeding: each example in turn is embedded and then written, and
/// the first failure ends it.
pub open spec fn seed_step(shots: Seq<FewShotView>, seen: Seq<SeedEventView>) -> SeedStepView {
    let at = seen.len() as int / 2;
    if let Some(e) = first_fault(seen, 0) {
        SeedStepView::Fail(e)
    } else if at >= shots.len() {
        SeedStepView::Done
    } else if seen.len() % 2 == 0 {
        SeedStepView::Embed(shots[at].context)
    } else {
        SeedStepView::Upsert {
            id: dns_uuid(encode_utf8(shots[at].context)),
            payload: shot_payload(shots[at]),
        }
    }
}

/// Seeds the examples: each in turn is embedded and then written.
pub fn seed_shots(shots: &Vec<FewShot>, seen: &[SeedEvent]) -> (r: SeedStep)
    ensures
        r.deep_view() == seed_step(shots.deep_view(), seen.deep_view()),
{
    for i in 0..seen.len()
        invariant
            first_fault(seen.deep_view(), 0) == first_fault(seen.deep_view(), i as int),
    {
        assert(seen.deep_view()[i as int] == seen@[i as int].deep_view());
        if let SeedEvent::Failed(e) = &seen[i] {
            return SeedStep::Fail(e.copy());
        }
    }
    let at = seen.len() / 2;
    if at >= shots.len() {
        return SeedStep::Done;
    }
    assert(shots.deep_view()[at as int] == shots@[at as int].deep_view());
    if seen.len() % 2 == 0 {
        return SeedStep::Embed(shots[at].context.clone());
    }
    let (id, payload) = seed_shot(&shots[at]);
    SeedStep::Upsert { id, payload }
}

/// Seeding again writes each example to the same point again, also where its reply
/// has changed: the point depends on the context alone.
pub proof fn law_seeding_again_overwrites(
    before: Seq<FewShotView>,
    after: Seq<FewShotView>,
    seen: Seq<SeedEventView>,
)
    requires
        before.len() == after.len(),
        forall|i: int| 0 <= i < before.len() ==> (#[trigger] before[i]).context == after[i].context,
    ensures
        seed_step(before, seen) is Upsert <==> seed_step(after, seen) is Upsert,
        seed_step(before, seen) is Upsert ==> seed_step(before, seen)->id == seed_step(
            after,
            seen,
        )->id,
{
    let at = seen.len() as int / 2;
    if at < before.len() {
        assert(before[at].context == after[at].context);
    }
}

/// The search for examples: in all of them.
pub fn shots_query(top_k: u32) -> (r: SearchQuery)
    ensures
        r.deep_view() == (SearchQueryView {
            collection: SHOTS_COLLECTION@,
            limit: top_k as u64,
            must: Seq::empty(),
        }),
{
    let must: Vec<(String, i64)> = Vec::new();
    assert(must.deep_view() =~= Seq::<(Seq<char>, i64)>::empty());
    SearchQuery { collection: SHOTS_COLLECTION.to_owned(), limit: top_k as u64, must }
}

/// The example of a hit; a part that it lacks is empty.
pub open spec fn shot_of(hit: SearchHitView) -> FewShotView {
    FewShotView {
        context: text_or(text_under(hit.payload, "context"@), Seq::empty()),
        reply: text_or(text_under(hit.payload, "reply"@), Seq::empty()),
    }
}

/// The examples of the hits.
pub open spec fn shots_of(hits: Seq<SearchHitView>) -> Seq<FewShotView> {
    Seq::new(hits.len(), |i: int| shot_of(hits[i]))
}

fn text_or_empty(p: &Payload, name: &str) -> (r: String)
    ensures
        r@ == text_or(text_under(p.deep_view(), name@), Seq::empty()),
{
    match payload_text(p, name) {
        Some(t) => t,
        None => {
            let s = String::new();
            assert(s@ =~= Seq::<char>::empty());
            s
        },
    }
}

/// The examples of the hits, in their order.
pub fn retrieve_relevant_shots(hits: &Vec<SearchHit>) -> (r: Vec<FewShot>)
    ensures
        r.deep_view() == shots_of(hits.deep_view()),
{
    let ghost all = shots_of(hits.deep_view());
    let mut out: Vec<FewShot> = Vec::new();
    assert(out.deep_view() =~= all.take(0));
    for i in 0..hits.len()
        invariant
            all == shots_of(hits.deep_view()),
            out.deep_view() == all.take(i as int),
    {
        assert(hits.deep_view()[i as int] == hits@[i as int].deep_view());
        let ghost before = out.deep_view();
        out.push(
            FewShot {
                context: text_or_empty(&hits[i].payload, "context"),
                reply: text_or_empty(&hits[i].payload, "reply"),
            },
        );
        assert(out.deep_view() =~= before.push(all[i as int]));
        assert(all.take(i + 1) =~= all.take(i as int).push(all[i as int]));
    }
    assert(all.take(hits@.len() as int) =~= all);
    out
}

/// What was seeded is what a hit on it gives back.
pub proof fn law_seeded_shot_comes_back(shot: FewShotView, hit: SearchHitView)
    requires
        hit.payload == shot_payload(shot),
    ensures
        shot_of(hit) == shot,
{
    reveal_with_fuel(crate::storage::qdrant::lookup, 3);
    reveal_strlit("context");
    reveal_strlit("reply");
    assert("context"@.len() != "reply"@.len());
    assert(hit.payload.drop_first()[0] == hit.payload[1]);
}

} // verus!
