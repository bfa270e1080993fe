//! Describing the media of a message: from the file to the description, through the
//! cache and the perception slots.
use vstd::prelude::*;

use crate::bot::handlers::{classified, classify_media, Perceived, PerceivedView, MAX_MEDIA_BYTES};
use crate::bot::incoming::Media;
use crate::encoding::{hex_seq, sha256_digest, sha256_hex};
use crate::error::Error;

verus! {

/// How long a description is kept in the cache, in days.
pub const MEDIA_CACHE_TTL_DAYS: u32 = 30;

/// What describing waits for.
#[derive(Clone, Copy, Debug, PartialEq, Eq, Structural)]
pub enum PerceivePhase {
    /// The file.
    Downloading,
    /// A description in the cache.
    LookingUp,
    /// A perception slot.
    Acquiring,
    /// The model's description.
    Describing,
    /// The slot being given back.
    Releasing,
    /// The description being kept.
    Caching,
    /// Nothing any more.
    Ended,
}

/// Describing between two of its steps.
pub struct PerceiveRun {
    pub phase: PerceivePhase,
    pub sha: String,
    pub desc: Option<String>,
}

/// The same as a mathematical value.
#[verifier::ext_equal]
pub struct PerceiveRunView {
    pub phase: PerceivePhase,
    pub sha: Seq<char>,
    pub desc: Option<Seq<char>>,
}

/// What happened since the last step.
pub enum PerceiveEvent {
    /// The file was fetched.
    Downloaded(Vec<u8>),
    /// What the cache holds.
    Cached(Option<String>),
    /// Whether a slot was taken.
    Acquired(bool),
    /// The model described the file.
    Described(String),
    /// What was asked for is done.
    Did,
    /// What was asked for failed.
    Failed,
}

/// The same as a mathematical value.
#[verifier::ext_equal]
pub enum PerceiveEventView {
    Downloaded(Seq<u8>),
    Cached(Option<Seq<char>>),
    Acquired(bool),
    Described(Seq<char>),
    Did,
    Failed,
}

/// What describing asks for next.
pub enum PerceiveAction {
    /// Fetch this file.
    Download(String),
    /// Look for this digest in the cache.
    LookUp(String),
    /// Take a perception slot.
    Acquire,
    /// Have the file described.
    Describe,
    /// Give the slot back.
    Release,
    /// Keep a description under this digest.
    Cache { sha: String, desc: String },
    /// The description, or none.
    Done(Option<String>),
}

/// The same as a mathematical value.
#[verifier::ext_equal]
pub enum PerceiveActionView {
    Download(Seq<char>),
    LookUp(Seq<char>),
    Acquire,
    Describe,
    Release,
    Cache { sha: Seq<char>, desc: Seq<char> },
    Done(Option<Seq<char>>),
}

impl DeepView for PerceiveRun {
    type V = PerceiveRunView;

    open spec fn deep_view(&self) -> PerceiveRunView {
        PerceiveRunView { phase: self.phase, sha: self.sha@, desc: self.desc.deep_view() }
    }
}

impl DeepView for PerceiveEvent {
    type V = PerceiveEventView;

    open spec fn deep_view(&self) -> PerceiveEventView {
        match self {
            PerceiveEvent::Downloaded(b) => PerceiveEventView::Downloaded(b@),
            PerceiveEvent::Cached(d) => PerceiveEventView::Cached(d.deep_view()),
            PerceiveEvent::Acquired(b) => PerceiveEventView::Acquired(*b),
            PerceiveEvent::Described(t) => PerceiveEventView::Described(t@),
            PerceiveEvent::Did => PerceiveEventView::Did,
            PerceiveEvent::Failed => PerceiveEventView::Failed,
        }
    }
}

impl DeepView for PerceiveAction {
    type V = PerceiveActionView;

    open spec fn deep_view(&self) -> PerceiveActionView {
        match self {
            PerceiveAction::Download(f) => PerceiveActionView::Download(f@),
            PerceiveAction::LookUp(s) => PerceiveActionView::LookUp(s@),
            PerceiveAction::Acquire => PerceiveActionView::Acquire,
            PerceiveAction::Describe => PerceiveActionView::Describe,
            PerceiveAction::Release => PerceiveActionView::Release,
            PerceiveAction::Cache { sha, desc } => PerceiveActionView::Cache {
                sha: sha@,
                desc: desc@,
            },
            PerceiveAction::Done(d) => PerceiveActionView::Done(d.deep_view()),
        }
    }
}

impl PerceiveRunView {
    /// Goes to a phase.
    pub open spec fn to(self, phase: PerceivePhase) -> PerceiveRunView {
        PerceiveRunView { phase, ..self }
    }

    /// Ends with a description or with none.
    pub open spec fn end(self, desc: Option<Seq<char>>) -> (PerceiveRunView, PerceiveActionView) {
        (self.to(PerceivePhase::Ended), PerceiveActionView::Done(desc))
    }

    /// What an event leads to.
    pub open spec fn on(self, event: PerceiveEventView) -> (PerceiveRunView, PerceiveActionView) {
        match (self.phase, event) {
            (PerceivePhase::Downloading, PerceiveEventView::Downloaded(bytes)) => if bytes.len()
                == 0 || bytes.len() > MAX_MEDIA_BYTES {
                self.end(None)
            } else {
                let sha = hex_seq(sha256_digest(bytes));
                (
                    PerceiveRunView { phase: PerceivePhase::LookingUp, sha, ..self },
                    PerceiveActionView::LookUp(sha),
                )
            },
            (PerceivePhase::Downloading, _) => self.end(None),
            (PerceivePhase::LookingUp, PerceiveEventView::Cached(Some(d))) => self.end(Some(d)),
            (PerceivePhase::LookingUp, _) => (
                self.to(PerceivePhase::Acquiring),
                PerceiveActionView::Acquire,
            ),
            (PerceivePhase::Acquiring, PerceiveEventView::Acquired(true)) => (
                self.to(PerceivePhase::Describing),
                PerceiveActionView::Describe,
            ),
            (PerceivePhase::Acquiring, _) => self.end(None),
            (PerceivePhase::Describing, PerceiveEventView::Described(d)) => (
                PerceiveRunView { phase: PerceivePhase::Releasing, desc: Some(d), ..self },
                PerceiveActionView::Release,
            ),
            (PerceivePhase::Describing, _) => (
                PerceiveRunView { phase: PerceivePhase::Releasing, desc: None, ..self },
                PerceiveActionView::Release,
            ),
            (PerceivePhase::Releasing, _) => match self.desc {
                Some(d) => (
                    self.to(PerceivePhase::Caching),
                    PerceiveActionView::Cache { sha: self.sha, desc: d },
                ),
                None => self.end(None),
            },
            (PerceivePhase::Caching, _) => self.end(self.desc),
            (PerceivePhase::Ended, _) => self.end(None),
        }
    }
}

/// Describing before its first step.
pub open spec fn fresh_perceive(kind: Option<PerceivedView>) -> PerceiveRunView {
    PerceiveRunView {
        phase: if kind is Some {
            PerceivePhase::Downloading
        } else {
            PerceivePhase::Ended
        },
        sha: Seq::empty(),
        desc: None,
    }
}

/// The first step of describing: nothing where the media cannot be described.
pub open spec fn first_perceive(kind: Option<PerceivedView>) -> PerceiveActionView {
    match kind {
        Some(k) => PerceiveActionView::Download(k.file()),
        None => PerceiveActionView::Done(None),
    }
}

/// Starts describing the media of a message.
pub fn perceive_media(media: &Media) -> (r: (PerceiveRun, PerceiveAction, Option<Perceived>))
    ensures
        r.0.deep_view() == fresh_perceive(classified(*media)),
        r.1.deep_view() == first_perceive(classified(*media)),
        r.2.deep_view() == classified(*media),
{
    let kind = classify_media(media);
    let action = match &kind {
        Some(Perceived::Image { file_id, .. }) => PerceiveAction::Download(file_id.clone()),
        Some(Perceived::Voice { file_id }) => PerceiveAction::Download(file_id.clone()),
        None => PerceiveAction::Done(None),
    };
    let sha = String::new();
    assert(sha@ =~= Seq::<char>::empty());
    let run = PerceiveRun {
        phase: if kind.is_some() {
            PerceivePhase::Downloading
        } else {
            PerceivePhase::Ended
        },
        sha,
        desc: None,
    };
    (run, action, kind)
}

impl PerceiveRun {
    fn end(&mut self, desc: Option<String>) -> (r: PerceiveAction)
        ensures
            (final(self).deep_view(), r.deep_view()) == old(self).deep_view().end(
                desc.deep_view(),
            ),
    {
        self.phase = PerceivePhase::Ended;
        assert(self.deep_view() =~= old(self).deep_view().to(PerceivePhase::Ended));
        PerceiveAction::Done(desc)
    }

    /// Takes in what happened and says what to do next. A slot that was taken is given
    /// back whatever comes of the description, before the description is kept. Nothing
    /// that fails on the way is reported: it ends in no description.
    pub fn advance(&mut self, event: PerceiveEvent) -> (r: PerceiveAction)
        ensures
            (final(self).deep_view(), r.deep_view()) == old(self).deep_view().on(
                event.deep_view(),
            ),
    {
        let ghost v = self.deep_view();
        let ghost ev = event.deep_view();
        match (self.phase, event) {
            (PerceivePhase::Downloading, PerceiveEvent::Downloaded(bytes)) => {
                if bytes.len() == 0 || bytes.len() > MAX_MEDIA_BYTES {
                    return self.end(None);
                }
                let sha = sha256_hex(bytes.as_slice());
                self.sha = sha.clone();
                self.phase = PerceivePhase::LookingUp;
                assert(self.deep_view() =~= v.on(ev).0);
                PerceiveAction::LookUp(sha)
            },
            (PerceivePhase::Downloading, _) => self.end(None),
            (PerceivePhase::LookingUp, PerceiveEvent::Cached(Some(d))) => self.end(Some(d)),
            (PerceivePhase::LookingUp, _) => {
                self.phase = PerceivePhase::Acquiring;
                assert(self.deep_view() =~= v.to(PerceivePhase::Acquiring));
                PerceiveAction::Acquire
            },
            (PerceivePhase::Acquiring, PerceiveEvent::Acquired(true)) => {
                self.phase = PerceivePhase::Describing;
                assert(self.deep_view() =~= v.to(PerceivePhase::Describing));
                PerceiveAction::Describe
            },
            (PerceivePhase::Acquiring, _) => self.end(None),
            (PerceivePhase::Describing, PerceiveEvent::Described(d)) => {
                self.desc = Some(d);
                self.phase = PerceivePhase::Releasing;
                assert(self.deep_view() =~= v.on(ev).0);
                PerceiveAction::Release
            },
            (PerceivePhase::Describing, _) => {
                self.desc = None;
                self.phase = PerceivePhase::Releasing;
                assert(self.deep_view() =~= v.on(ev).0);
                PerceiveAction::Release
            },
            (PerceivePhase::Releasing, _) => {
                let desc = match &self.desc {
                    Some(d) => d.clone(),
                    None => {
                        return self.end(None);
                    },
                };
                self.phase = PerceivePhase::Caching;
                assert(self.deep_view() =~= v.to(PerceivePhase::Caching));
                PerceiveAction::Cache { sha: self.sha.clone(), desc }
            },
            (PerceivePhase::Caching, _) => {
                let desc = crate::text::copy_opt(&self.desc);
                self.end(desc)
            },
            (PerceivePhase::Ended, _) => self.end(None),
        }
    }
}

/// The slots that a course of describing holds after `events`: those taken less those
/// given back.
pub open spec fn slots_held(start: PerceiveRunView, events: Seq<PerceiveEventView>) -> int
    decreases events.len(),
{
    if events.len() == 0 {
        0
    } else {
        let before = run_after(start, events.drop_last());
        let held = slots_held(start, events.drop_last());
        let action = before.on(events.last()).1;
        if before.phase is Acquiring && events.last() == PerceiveEventView::Acquired(true) {
            held + 1
        } else if action is Release {
            held - 1
        } else {
            held
        }
    }
}

/// Describing after `events`.
pub open spec fn run_after(
    start: PerceiveRunView,
    events: Seq<PerceiveEventView>,
) -> PerceiveRunView
    decreases events.len(),
{
    if events.len() == 0 {
        start
    } else {
        run_after(start, events.drop_last()).on(events.last()).0
    }
}

/// Whatever happens, a slot is held exactly while the model describes: what was taken
/// is given back once, on every path, and nothing is given back that was not taken.
pub proof fn law_slot_is_given_back(
    kind: Option<PerceivedView>,
    events: Seq<PerceiveEventView>,
)
    ensures
        slots_held(fresh_perceive(kind), events) == (if run_after(
            fresh_perceive(kind),
            events,
        ).phase is Describing {
            1int
        } else {
            0
        }),
    decreases events.len(),
{
    if events.len() > 0 {
        law_slot_is_given_back(kind, events.drop_last());
    }
}

/// A description in the cache is used as it is: no slot is taken and no model asked.
pub proof fn law_cache_hit_ends_it(run: PerceiveRunView, desc: Seq<char>)
    requires
        run.phase is LookingUp,
    ensures
        run.on(PerceiveEventView::Cached(Some(desc))).1 == PerceiveActionView::Done(Some(desc)),
        run.on(PerceiveEventView::Cached(Some(desc))).0.phase is Ended,
{
}

/// A description that a model gave is kept under the digest of the file and is what
/// describing ends with.
pub proof fn law_description_is_kept(
    run: PerceiveRunView,
    desc: Seq<char>,
    released: PerceiveEventView,
    cached: PerceiveEventView,
)
    requires
        run.phase is Describing,
    ensures
        ({
            let a = run.on(PerceiveEventView::Described(desc));
            let b = a.0.on(released);
            let c = b.0.on(cached);
            &&& a.1 == PerceiveActionView::Release
            &&& b.1 == (PerceiveActionView::Cache { sha: run.sha, desc })
            &&& c.1 == PerceiveActionView::Done(Some(desc))
        }),
{
}

/// What happened since the last step of writing a description down.
pub enum PersistEvent {
    /// What was asked for is done.
    Did,
    /// What was asked for failed.
    Failed(Error),
}

/// What writing a description down does next.
pub enum PersistStep {
    /// Nothing to write.
    Nothing,
    /// Write the description to the row of the message.
    UpdateRow(String),
    /// Write the description to the window's entry of the message.
    PatchWindow(String),
    /// The description was written.
    Done,
    /// The description was not written whole.
    Fail(Error),
}

/// The next step of writing down what came of describing a message's media.
pub fn perceive_and_persist(desc: &Option<String>, seen: &[PersistEvent]) -> (r: PersistStep)
    ensures
        match desc {
            None => r is Nothing,
            Some(d) => if seen@.len() == 0 {
                r == PersistStep::UpdateRow(*d)
            } else if seen@[0] is Failed {
                r == PersistStep::Fail(seen@[0]->Failed_0)
            } else if seen@.len() == 1 {
                r == PersistStep::PatchWindow(*d)
            } else if seen@[1] is Failed {
                r == PersistStep::Fail(seen@[1]->Failed_0)
            } else {
                r is Done
            },
        },
{
    let d = match desc {
        None => {
            return PersistStep::Nothing;
        },
        Some(d) => d,
    };
    if seen.len() == 0 {
        return PersistStep::UpdateRow(d.clone());
    }
    if let PersistEvent::Failed(e) = &seen[0] {
        return PersistStep::Fail(e.copy());
    }
    if seen.len() == 1 {
        return PersistStep::PatchWindow(d.clone());
    }
    if let PersistEvent::Failed(e) = &seen[1] {
        return PersistStep::Fail(e.copy());
    }
    PersistStep::Done
}

} // verus!
