//! Whether the bot answers.
//!
//! In a group it answers where it is mentioned, where someone answers one of its
//! messages, and where its name or one of its aliases occurs in the text. In a
//! private chat it always answers. Otherwise it keeps silent.
use vstd::prelude::*;

use crate::bot::incoming::{
    body_of, carries_media, detect_media, extract_text, Entity, EntityView, Incoming,
};
use crate::config::DecisionConfig;
use crate::error::joined;
use crate::float_bits::FloatBits;
use crate::text::{
    contains, contains_seq, eq_ignore_ascii_case, lowercase, push_text, same_ignoring_ascii_case,
    to_lowercase,
};

verus! {

/// How a decision is counted.
#[derive(Clone, Copy, Debug, PartialEq, Eq, Structural)]
pub enum DecisionOutcome {
    Reply,
    SkipNoTrigger,
}

impl DecisionOutcome {
    /// The label under which it is counted.
    pub open spec fn label_spec(self) -> Seq<char> {
        match self {
            DecisionOutcome::Reply => "reply"@,
            DecisionOutcome::SkipNoTrigger => "skip_no_trigger"@,
        }
    }

    /// The label under which it is counted.
    pub fn label(self) -> (r: &'static str)
        ensures
            r@ == self.label_spec(),
    {
        match self {
            DecisionOutcome::Reply => "reply",
            DecisionOutcome::SkipNoTrigger => "skip_no_trigger",
        }
    }
}

/// Whether to answer, and how the decision is counted, where it is.
#[derive(Clone, Copy, Debug, PartialEq, Eq, Structural)]
pub struct Decision {
    pub reply: bool,
    pub outcome: Option<DecisionOutcome>,
}

/// `e` mentions the account `needle`, whatever the case of its letters.
pub open spec fn mentions(e: EntityView, needle: Seq<char>) -> bool {
    e.mention && same_ignoring_ascii_case(e.text, needle)
}

/// The entities of a message: those of its text, or else those of its caption.
pub open spec fn entities_of(msg: Incoming) -> Seq<EntityView> {
    match msg.entities {
        Some(e) => e.deep_view(),
        None => match msg.caption_entities {
            Some(e) => e.deep_view(),
            None => Seq::empty(),
        },
    }
}

/// One of the entities mentions the account `needle`.
pub open spec fn any_mentions(entities: Seq<EntityView>, needle: Seq<char>) -> bool {
    exists|i: int| 0 <= i < entities.len() && mentions(#[trigger] entities[i], needle)
}

/// The message mentions the bot.
pub open spec fn mentions_bot(msg: Incoming, bot_username: Seq<char>) -> bool {
    any_mentions(entities_of(msg), "@"@ + bot_username)
}

fn any_mention(entities: &Vec<Entity>, needle: &str) -> (r: bool)
    ensures
        r == any_mentions(entities.deep_view(), needle@),
{
    for i in 0..entities.len()
        invariant
            forall|k: int| 0 <= k < i ==> !mentions(#[trigger] entities.deep_view()[k], needle@),
    {
        assert(entities.deep_view()[i as int] == entities@[i as int].deep_view());
        if entities[i].mention && eq_ignore_ascii_case(entities[i].text.as_str(), needle) {
            return true;
        }
    }
    false
}

/// Whether the message mentions the bot.
pub fn has_mention(msg: &Incoming, bot_username: &str) -> (r: bool)
    ensures
        r == mentions_bot(*msg, bot_username@),
{
    let needle = joined("@", bot_username);
    match &msg.entities {
        Some(e) => any_mention(e, needle.as_str()),
        None => match &msg.caption_entities {
            Some(e) => any_mention(e, needle.as_str()),
            None => false,
        },
    }
}

/// One of `names` occurs in `text`.
pub open spec fn names_occur(text: Seq<char>, names: Seq<Seq<char>>) -> bool {
    exists|i: int| 0 <= i < names.len() && contains_seq(text, #[trigger] names[i])
}

/// How likely an answer is for a text, once text, name and aliases are in lower
/// case.
pub open spec fn alias_probability(
    lower: Seq<char>,
    username: Seq<char>,
    aliases: Seq<Seq<char>>,
    cfg: DecisionConfig,
) -> FloatBits {
    if contains_seq(lower, username) || names_occur(lower, aliases) {
        cfg.alias_in_text_p
    } else {
        FloatBits::zero_spec()
    }
}

/// How likely an answer is for a text, once text, name and aliases are in lower
/// case.
pub fn lower_alias_p(
    lower: &str,
    username: &str,
    aliases: &Vec<String>,
    cfg: &DecisionConfig,
) -> (r: FloatBits)
    ensures
        r == alias_probability(lower@, username@, aliases.deep_view(), *cfg),
{
    if contains(lower, username) {
        return cfg.alias_in_text_p;
    }
    for i in 0..aliases.len()
        invariant
            !contains_seq(lower@, username@),
            forall|k: int|
                0 <= k < i ==> !contains_seq(lower@, #[trigger] aliases.deep_view()[k]),
    {
        assert(aliases.deep_view()[i as int] == aliases@[i as int]@);
        if contains(lower, aliases[i].as_str()) {
            return cfg.alias_in_text_p;
        }
    }
    FloatBits::zero()
}

/// Texts in lower case.
pub open spec fn lowered(s: Seq<Seq<char>>) -> Seq<Seq<char>> {
    Seq::new(s.len(), |i: int| lowercase(s[i]))
}

/// How likely an answer is for a text: the configured probability where the bot's
/// name or an alias occurs in it, whatever the case, else 0.
pub fn text_alias_p(
    text: &str,
    aliases: &Vec<String>,
    bot_username: &str,
    cfg: &DecisionConfig,
) -> (r: FloatBits)
    ensures
        r == alias_probability(
            lowercase(text@),
            lowercase(bot_username@),
            lowered(aliases.deep_view()),
            *cfg,
        ),
{
    let lower = to_lowercase(text);
    let name = to_lowercase(bot_username);
    let mut low: Vec<String> = Vec::new();
    let ghost all = lowered(aliases.deep_view());
    assert(low.deep_view() =~= all.take(0));
    for i in 0..aliases.len()
        invariant
            all == lowered(aliases.deep_view()),
            low.deep_view() == all.take(i as int),
    {
        let a = to_lowercase(aliases[i].as_str());
        assert(aliases.deep_view()[i as int] == aliases@[i as int]@);
        push_text(&mut low, a.as_str());
        assert(low.deep_view() =~= all.take(i + 1));
    }
    assert(all.take(aliases@.len() as int) =~= all);
    lower_alias_p(lower.as_str(), name.as_str(), &low, cfg)
}

/// The message answers one of the account `bot_id`.
pub open spec fn answers_bot(msg: Incoming, bot_id: i64) -> bool {
    msg.reply_to is Some && msg.reply_to->0.from_id == Some(bot_id)
}

/// What is decided, where `alias_p` is how likely an answer is for the message's
/// text.
pub open spec fn decided(
    msg: Incoming,
    bot_id: i64,
    bot_username: Seq<char>,
    alias_p: FloatBits,
    cfg: DecisionConfig,
) -> Decision {
    let one = FloatBits::one_spec();
    if body_of(msg) is None && !carries_media(msg.media) {
        Decision { reply: false, outcome: None }
    } else if msg.private {
        Decision { reply: true, outcome: Some(DecisionOutcome::Reply) }
    } else if mentions_bot(msg, bot_username) {
        Decision { reply: cfg.mention_p.at_least(one), outcome: Some(DecisionOutcome::Reply) }
    } else if answers_bot(msg, bot_id) {
        Decision { reply: cfg.reply_p.at_least(one), outcome: Some(DecisionOutcome::Reply) }
    } else if body_of(msg) is Some && alias_p.at_least(one) {
        Decision { reply: true, outcome: Some(DecisionOutcome::Reply) }
    } else {
        Decision { reply: false, outcome: Some(DecisionOutcome::SkipNoTrigger) }
    }
}

/// How likely an answer is for the text of `msg`.
pub open spec fn text_p(
    msg: Incoming,
    aliases: Seq<Seq<char>>,
    bot_username: Seq<char>,
    cfg: DecisionConfig,
) -> FloatBits {
    match body_of(msg) {
        Some(t) => alias_probability(lowercase(t), lowercase(bot_username), lowered(aliases), cfg),
        None => FloatBits::zero_spec(),
    }
}

/// Decides, given how likely an answer is for the message's text.
pub fn decide(
    msg: &Incoming,
    bot_id: i64,
    bot_username: &str,
    alias_p: FloatBits,
    cfg: &DecisionConfig,
) -> (r: Decision)
    ensures
        r == decided(*msg, bot_id, bot_username@, alias_p, *cfg),
{
    let text = extract_text(msg);
    if text.is_none() && !detect_media(&msg.media) {
        return Decision { reply: false, outcome: None };
    }
    if msg.private {
        return Decision { reply: true, outcome: Some(DecisionOutcome::Reply) };
    }
    if has_mention(msg, bot_username) {
        return Decision {
            reply: cfg.mention_p.ge(FloatBits::one()),
            outcome: Some(DecisionOutcome::Reply),
        };
    }
    if let Some(replied) = &msg.reply_to {
        if let Some(id) = replied.from_id {
            if id == bot_id {
                return Decision {
                    reply: cfg.reply_p.ge(FloatBits::one()),
                    outcome: Some(DecisionOutcome::Reply),
                };
            }
        }
    }
    if text.is_some() && alias_p.ge(FloatBits::one()) {
        return Decision { reply: true, outcome: Some(DecisionOutcome::Reply) };
    }
    Decision { reply: false, outcome: Some(DecisionOutcome::SkipNoTrigger) }
}

/// Whether to answer a message.
pub fn should_reply(
    msg: &Incoming,
    bot_id: i64,
    bot_username: &str,
    aliases: &Vec<String>,
    cfg: &DecisionConfig,
) -> (r: Decision)
    ensures
        r == decided(
            *msg,
            bot_id,
            bot_username@,
            text_p(*msg, aliases.deep_view(), bot_username@, *cfg),
            *cfg,
        ),
{
    let p = match extract_text(msg) {
        Some(t) => text_alias_p(t.as_str(), aliases, bot_username, cfg),
        None => FloatBits::zero(),
    };
    decide(msg, bot_id, bot_username, p, cfg)
}

/// With all three probabilities at 1 the bot answers exactly where there is
/// something to answer and it is a private chat, a mention, an answer to the bot, or
/// its name or an alias in the text.
pub proof fn law_answers_when_addressed(
    msg: Incoming,
    bot_id: i64,
    bot_username: Seq<char>,
    aliases: Seq<Seq<char>>,
    cfg: DecisionConfig,
)
    requires
        cfg.mention_p == FloatBits::one_spec(),
        cfg.reply_p == FloatBits::one_spec(),
        cfg.alias_in_text_p == FloatBits::one_spec(),
    ensures
        decided(msg, bot_id, bot_username, text_p(msg, aliases, bot_username, cfg), cfg).reply <==> {
            &&& body_of(msg) is Some || carries_media(msg.media)
            &&& {
                ||| msg.private
                ||| mentions_bot(msg, bot_username)
                ||| answers_bot(msg, bot_id)
                ||| body_of(msg) matches Some(t) && (contains_seq(
                    lowercase(t),
                    lowercase(bot_username),
                ) || names_occur(lowercase(t), lowered(aliases)))
            }
        },
{
}

/// The case of the letters does not matter: two texts that are the same in lower case
/// are answered alike, and so are two names and two lists of aliases.
pub proof fn law_case_does_not_matter(
    a: Seq<char>,
    b: Seq<char>,
    name_a: Seq<char>,
    name_b: Seq<char>,
    aliases_a: Seq<Seq<char>>,
    aliases_b: Seq<Seq<char>>,
    cfg: DecisionConfig,
)
    requires
        lowercase(a) == lowercase(b),
        lowercase(name_a) == lowercase(name_b),
        aliases_a.len() == aliases_b.len(),
        forall|i: int|
            0 <= i < aliases_a.len() ==> lowercase(#[trigger] aliases_a[i]) == lowercase(
                aliases_b[i],
            ),
    ensures
        alias_probability(lowercase(a), lowercase(name_a), lowered(aliases_a), cfg)
            == alias_probability(lowercase(b), lowercase(name_b), lowered(aliases_b), cfg),
{
    assert(lowered(aliases_a) =~= lowered(aliases_b));
}

/// A decision that is not counted is silence, and a skip is silence.
pub proof fn law_only_replies_speak(
    msg: Incoming,
    bot_id: i64,
    bot_username: Seq<char>,
    alias_p: FloatBits,
    cfg: DecisionConfig,
)
    ensures
        decided(msg, bot_id, bot_username, alias_p, cfg).reply ==> decided(
            msg,
            bot_id,
            bot_username,
            alias_p,
            cfg,
        ).outcome == Some(DecisionOutcome::Reply),
{
}

/// Answers and silence are counted under labels of their own.
pub proof fn law_decisions_are_counted_apart()
    ensures
        DecisionOutcome::Reply.label_spec() == "reply"@,
        DecisionOutcome::SkipNoTrigger.label_spec() == "skip_no_trigger"@,
{
}

} // verus!
