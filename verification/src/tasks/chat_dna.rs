//! The portrait of a chat: made from its latest summaries and kept for a day.
use vstd::prelude::*;

use crate::error::joined;
use crate::llm::client::{system_and_user, two_messages, Message, MessageView};
use crate::llm::prompts::summary::DNA_PROMPT;
use crate::text::{join, join_seq, push_text, trim, trim_seq};

verus! {

/// How long a portrait is kept, in seconds.
pub const DNA_TTL_SEC: u64 = 86_400;
/// How many summaries a portrait is made from.
pub const DNA_LOOKBACK_SUMMARIES: i64 = 20;
/// How many tokens a portrait may take.
pub const DNA_MAX_TOKENS: u32 = 200;
/// The portrait where none can be had.
pub const DNA_DEFAULT: &'static str = "Активный чат, где обсуждают разное.";
/// The portrait of a chat without summaries.
pub const DNA_NEW_CHAT: &'static str = "Новый чат без истории.";

/// What happened since the last step.
pub enum DnaEvent {
    /// The portrait that is kept, or none.
    Kept(Option<String>),
    /// The latest summaries, the latest first.
    Summaries(Vec<String>),
    /// The model answered.
    Answered(String),
    /// What was asked for is done.
    Did,
    /// What was asked for failed.
    Failed,
}

/// What happened, as a mathematical value.
#[verifier::ext_equal]
pub enum DnaEventView {
    Kept(Option<Seq<char>>),
    Summaries(Seq<Seq<char>>),
    Answered(Seq<char>),
    Did,
    Failed,
}

/// What having a portrait made does next.
pub enum DnaStep {
    /// Look up the portrait that is kept.
    Get,
    /// Find the chat's latest summaries, at most so many, the latest first.
    Read { limit: i64 },
    /// Ask the main model.
    Ask(Vec<Message>),
    /// Keep this portrait.
    Keep(String),
    /// This is the portrait.
    Done(String),
}

/// A step as a mathematical value.
#[verifier::ext_equal]
pub enum DnaStepView {
    Get,
    Read { limit: i64 },
    Ask(Seq<MessageView>),
    Keep(Seq<char>),
    Done(Seq<char>),
}

impl DeepView for DnaEvent {
    type V = DnaEventView;

    open spec fn deep_view(&self) -> DnaEventView {
        match self {
            DnaEvent::Kept(d) => DnaEventView::Kept(d.deep_view()),
            DnaEvent::Summaries(s) => DnaEventView::Summaries(s.deep_view()),
            DnaEvent::Answered(t) => DnaEventView::Answered(t@),
            DnaEvent::Did => DnaEventView::Did,
            DnaEvent::Failed => DnaEventView::Failed,
        }
    }
}

impl DeepView for DnaStep {
    type V = DnaStepView;

    open spec fn deep_view(&self) -> DnaStepView {
        match self {
            DnaStep::Get => DnaStepView::Get,
            DnaStep::Read { limit } => DnaStepView::Read { limit: *limit },
            DnaStep::Ask(m) => DnaStepView::Ask(m.deep_view()),
            DnaStep::Keep(t) => DnaStepView::Keep(t@),
            DnaStep::Done(t) => DnaStepView::Done(t@),
        }
    }
}

/// The summaries, each behind a dash.
pub open spec fn dash_items(summaries: Seq<Seq<char>>) -> Seq<Seq<char>> {
    Seq::new(summaries.len(), |i: int| "- "@ + summaries[i])
}

/// The prompt for a portrait.
pub open spec fn dna_messages(summaries: Seq<Seq<char>>) -> Seq<MessageView> {
    two_messages(DNA_PROMPT@, join_seq(dash_items(summaries), "\n"@))
}

fn dna_prompt(summaries: &Vec<String>) -> (r: Vec<Message>)
    ensures
        r.deep_view() == dna_messages(summaries.deep_view()),
{
    let ghost all = dash_items(summaries.deep_view());
    let mut items: Vec<String> = Vec::new();
    assert(items.deep_view() =~= all.take(0));
    for i in 0..summaries.len()
        invariant
            all == dash_items(summaries.deep_view()),
            items.deep_view() == all.take(i as int),
    {
        let item = joined("- ", summaries[i].as_str());
        assert(summaries.deep_view()[i as int] == summaries@[i as int]@);
        push_text(&mut items, item.as_str());
        assert(items.deep_view() =~= all.take(i + 1));
    }
    assert(all.take(summaries@.len() as int) =~= all);
    system_and_user(DNA_PROMPT, join(&items, "\n"))
}

/// Keeps a portrait, and ends with it whether or not it could be kept.
pub open spec fn keep_step(dna: Seq<char>, seen: Seq<DnaEventView>, at: int) -> DnaStepView {
    if seen.len() <= at {
        DnaStepView::Keep(dna)
    } else {
        DnaStepView::Done(dna)
    }
}

/// The next step of having a portrait made.
pub open spec fn dna_step(seen: Seq<DnaEventView>) -> DnaStepView {
    if seen.len() == 0 {
        DnaStepView::Get
    } else {
        match seen[0] {
            DnaEventView::Kept(Some(d)) => DnaStepView::Done(d),
            DnaEventView::Kept(None) => if seen.len() == 1 {
                DnaStepView::Read { limit: DNA_LOOKBACK_SUMMARIES }
            } else {
                match seen[1] {
                    DnaEventView::Summaries(s) => if s.len() == 0 {
                        keep_step(DNA_NEW_CHAT@, seen, 2)
                    } else if seen.len() == 2 {
                        DnaStepView::Ask(dna_messages(s))
                    } else {
                        match seen[2] {
                            DnaEventView::Answered(t) => keep_step(trim_seq(t), seen, 3),
                            _ => DnaStepView::Done(DNA_DEFAULT@),
                        }
                    },
                    _ => DnaStepView::Done(DNA_DEFAULT@),
                }
            },
            _ => DnaStepView::Done(DNA_DEFAULT@),
        }
    }
}

fn keep(dna: String, seen: &[DnaEvent], at: usize) -> (r: DnaStep)
    ensures
        r.deep_view() == keep_step(dna@, seen.deep_view(), at as int),
{
    if seen.len() <= at {
        DnaStep::Keep(dna)
    } else {
        DnaStep::Done(dna)
    }
}

/// The portrait of a chat: the one that is kept, or else one made from the chat's
/// latest summaries. Whatever fails on the way, it ends with a portrait.
pub fn get_or_synthesize_dna(seen: &[DnaEvent]) -> (r: DnaStep)
    ensures
        r.deep_view() == dna_step(seen.deep_view()),
{
    if seen.len() == 0 {
        return DnaStep::Get;
    }
    assert(seen.deep_view()[0] == seen@[0].deep_view());
    match &seen[0] {
        DnaEvent::Kept(Some(d)) => DnaStep::Done(d.clone()),
        DnaEvent::Kept(None) => {
            if seen.len() == 1 {
                return DnaStep::Read { limit: DNA_LOOKBACK_SUMMARIES };
            }
            assert(seen.deep_view()[1] == seen@[1].deep_view());
            match &seen[1] {
                DnaEvent::Summaries(s) => {
                    if s.len() == 0 {
                        return keep(DNA_NEW_CHAT.to_owned(), seen, 2);
                    }
                    if seen.len() == 2 {
                        return DnaStep::Ask(dna_prompt(s));
                    }
                    assert(seen.deep_view()[2] == seen@[2].deep_view());
                    match &seen[2] {
                        DnaEvent::Answered(t) => keep(trim(t.as_str()), seen, 3),
                        _ => DnaStep::Done(DNA_DEFAULT.to_owned()),
                    }
                },
                _ => DnaStep::Done(DNA_DEFAULT.to_owned()),
            }
        },
        _ => DnaStep::Done(DNA_DEFAULT.to_owned()),
    }
}

/// A portrait always comes: after at most four answers there is one, whatever they
/// were.
pub proof fn law_a_portrait_always_comes(seen: Seq<DnaEventView>)
    requires
        seen.len() >= 4,
    ensures
        dna_step(seen) is Done,
{
}

/// A portrait that is kept is used as it is, and nothing else is asked for.
pub proof fn law_kept_portrait_is_used(dna: Seq<char>)
    ensures
        dna_step(seq![DnaEventView::Kept(Some(dna))]) == DnaStepView::Done(dna),
{
}

} // verus!
