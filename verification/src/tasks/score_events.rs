//! Scoring of candidates: which of them become events.
//!
//! Once the buffer is full enough it is emptied and a model scores its candidates.
//! Where every model fails, the candidates are put back, but for those that could not
//! be read. Where a model's answer cannot be read, the batch is dropped. Where what is
//! kept cannot be embedded at once it is embedded one by one, and only those are
//! skipped that cannot be embedded or stored. Where the vectors are not as many as the
//! texts, nobody knows which belongs to which, and the batch is dropped.
use vstd::prelude::*;

use crate::error::{Error, ErrorView};
use crate::llm::client::{system_and_user, two_messages, Message, MessageView};
use crate::llm::prompts::score::SCORE_SYSTEM_PROMPT;
use crate::memory::events::{CandidateRow, CandidateRowView, CATEGORIES};
use crate::storage::laws::{
    law_pop_then_requeue, pop_candidates_call, push_calls, requeue_call,
};
use crate::storage::redis::candidates_key;
use crate::storage::server::Server;
use crate::text::{
    all_space, concat_all, copy_texts, decimal, has_prefix, has_suffix, is_blank, is_space,
    law_trim_takes_padding_off, lemma_concat_step, opt_or, push_text, same, strip_prefix,
    strip_suffix, text_or, trim, trim_seq, usize_to_string,
};

verus! {

/// How many tokens a scoring may take.
pub const SCORE_MAX_TOKENS: u32 = 800;
/// How many messages before the candidates the model is shown.
pub const CONTEXT_MESSAGES: i64 = 5;

/// `c` is one of the kinds of events.
pub open spec fn known_category(c: Seq<char>) -> bool {
    exists|i: int| 0 <= i < CATEGORIES@.len() && c == #[trigger] CATEGORIES@[i]@
}

/// Whether `c` is one of the kinds of events.
pub fn is_valid_category(c: &str) -> (r: bool)
    ensures
        r == known_category(c@),
{
    let all = CATEGORIES;
    for i in 0..all.len()
        invariant
            all == CATEGORIES,
            forall|k: int| 0 <= k < i ==> c@ != #[trigger] CATEGORIES@[k]@,
    {
        if same(c, all[i]) {
            return true;
        }
    }
    false
}

/// A score as the model gave it: the number of the candidate, the score, the kind.
pub struct ScoredEntry {
    pub i: u32,
    pub score: u8,
    pub category: String,
}

/// A score as a mathematical value.
#[verifier::ext_equal]
pub struct ScoredEntryView {
    pub i: u32,
    pub score: u8,
    pub category: Seq<char>,
}

/// A message before the candidates.
pub struct ContextRow {
    pub username: Option<String>,
    pub text: Option<String>,
    pub media_description: Option<String>,
}

/// A message before the candidates, as a mathematical value.
#[verifier::ext_equal]
pub struct ContextRowView {
    pub username: Option<Seq<char>>,
    pub text: Option<Seq<char>>,
    pub media_description: Option<Seq<char>>,
}

impl DeepView for ScoredEntry {
    type V = ScoredEntryView;

    open spec fn deep_view(&self) -> ScoredEntryView {
        ScoredEntryView { i: self.i, score: self.score, category: self.category@ }
    }
}

impl DeepView for ContextRow {
    type V = ContextRowView;

    open spec fn deep_view(&self) -> ContextRowView {
        ContextRowView {
            username: self.username.deep_view(),
            text: self.text.deep_view(),
            media_description: self.media_description.deep_view(),
        }
    }
}

/// `line` with what is known of the message's media.
pub open spec fn with_media(line: Seq<char>, desc: Option<Seq<char>>) -> Seq<char> {
    match desc {
        Some(d) => line + " [медиа: "@ + trim_seq(d) + "]"@,
        None => line,
    }
}

fn add_media(line: String, desc: &Option<String>) -> (r: String)
    ensures
        r@ == with_media(line@, desc.deep_view()),
{
    let mut s = line;
    if let Some(d) = desc {
        s.append(" [медиа: ");
        s.append(trim(d.as_str()).as_str());
        s.append("]");
    }
    s
}

/// The line of a message before the candidates.
pub open spec fn context_line(c: ContextRowView) -> Seq<char> {
    with_media(
        "- "@ + text_or(c.username, "anon"@) + ": "@ + trim_seq(text_or(c.text, ""@)),
        c.media_description,
    ) + "\n"@
}

/// The lines of the messages before the candidates.
pub open spec fn context_lines(context: Seq<ContextRowView>) -> Seq<Seq<char>> {
    Seq::new(context.len(), |i: int| context_line(context[i]))
}

/// The text of an event.
pub open spec fn event_text(c: CandidateRowView) -> Seq<char> {
    with_media(text_or(c.username, "anon"@) + ": "@ + trim_seq(c.text), c.media_desc)
}

/// The line of the candidate at place `i`.
pub open spec fn candidate_line(i: int, c: CandidateRowView) -> Seq<char> {
    with_media(
        "[i="@ + decimal(i) + "] "@ + text_or(c.username, "anon"@) + ": "@ + trim_seq(c.text),
        c.media_desc,
    ) + "\n"@
}

/// The lines of the candidates.
pub open spec fn candidate_lines(candidates: Seq<CandidateRowView>) -> Seq<Seq<char>> {
    Seq::new(candidates.len(), |i: int| candidate_line(i, candidates[i]))
}

/// What the model is asked to score.
pub open spec fn score_payload(
    context: Seq<ContextRowView>,
    candidates: Seq<CandidateRowView>,
) -> Seq<char> {
    let head = if context.len() == 0 {
        ""@
    } else {
        "КОНТЕКСТ (без оценки):\n"@ + concat_all(context_lines(context)) + "\n"@
    };
    head + "КАНДИДАТЫ:\n"@ + concat_all(candidate_lines(candidates))
}

fn context_block(context: &Vec<ContextRow>) -> (r: String)
    ensures
        r@ == (if context.deep_view().len() == 0 {
            ""@
        } else {
            "КОНТЕКСТ (без оценки):\n"@ + concat_all(context_lines(context.deep_view())) + "\n"@
        }),
{
    if context.len() == 0 {
        return "".to_owned();
    }
    let mut s = "КОНТЕКСТ (без оценки):\n".to_owned();
    let ghost head = s@;
    let ghost parts = context_lines(context.deep_view());
    assert(parts.take(0) =~= Seq::empty());
    assert(head + concat_all(parts.take(0)) =~= head);
    for i in 0..context.len()
        invariant
            parts == context_lines(context.deep_view()),
            s@ == head + concat_all(parts.take(i as int)),
    {
        let c = &context[i];
        let mut line = "- ".to_owned();
        line.append(opt_or(&c.username, "anon"));
        line.append(": ");
        line.append(trim(opt_or(&c.text, "")).as_str());
        let mut line = add_media(line, &c.media_description);
        line.append("\n");
        proof {
            assert(context.deep_view()[i as int] == context@[i as int].deep_view());
            lemma_concat_step(parts, i as int);
        }
        s.append(line.as_str());
        assert(s@ =~= head + (concat_all(parts.take(i as int)) + line@));
    }
    assert(parts.take(context@.len() as int) =~= parts);
    s.append("\n");
    s
}

/// What the model is asked to score: the messages before, and the candidates by
/// number.
pub fn format_score_payload(context: &Vec<ContextRow>, candidates: &Vec<CandidateRow>) -> (r:
    String)
    ensures
        r@ == score_payload(context.deep_view(), candidates.deep_view()),
{
    let mut s = context_block(context);
    s.append("КАНДИДАТЫ:\n");
    let ghost head = s@;
    let ghost parts = candidate_lines(candidates.deep_view());
    assert(parts.take(0) =~= Seq::empty());
    assert(head + concat_all(parts.take(0)) =~= head);
    for i in 0..candidates.len()
        invariant
            parts == candidate_lines(candidates.deep_view()),
            s@ == head + concat_all(parts.take(i as int)),
    {
        let c = &candidates[i];
        let mut line = "[i=".to_owned();
        line.append(usize_to_string(i).as_str());
        line.append("] ");
        line.append(opt_or(&c.username, "anon"));
        line.append(": ");
        line.append(trim(c.text.as_str()).as_str());
        let mut line = add_media(line, &c.media_desc);
        line.append("\n");
        proof {
            assert(candidates.deep_view()[i as int] == candidates@[i as int].deep_view());
            lemma_concat_step(parts, i as int);
        }
        s.append(line.as_str());
        assert(s@ =~= head + (concat_all(parts.take(i as int)) + line@));
    }
    assert(parts.take(candidates@.len() as int) =~= parts);
    s
}

/// The text of an event: who said what, and what is known of the media.
pub fn format_event_text(c: &CandidateRow) -> (r: String)
    ensures
        r@ == event_text(c.deep_view()),
{
    let mut s = opt_or(&c.username, "anon").to_owned();
    s.append(": ");
    s.append(trim(c.text.as_str()).as_str());
    add_media(s, &c.media_desc)
}

/// `s` without `prefix` where it begins with it.
pub open spec fn without_prefix(s: Seq<char>, prefix: Seq<char>) -> Seq<char> {
    if has_prefix(s, prefix) {
        s.skip(prefix.len() as int)
    } else {
        s
    }
}

/// `s` without `suffix` where it ends with it.
pub open spec fn without_suffix(s: Seq<char>, suffix: Seq<char>) -> Seq<char> {
    if has_suffix(s, suffix) {
        s.take(s.len() - suffix.len())
    } else {
        s
    }
}

/// `s` without `prefix` where it begins with it.
pub fn drop_prefix(s: String, prefix: &str) -> (r: String)
    ensures
        r@ == without_prefix(s@, prefix@),
{
    match strip_prefix(s.as_str(), prefix) {
        Some(rest) => rest,
        None => s,
    }
}

/// `s` without `suffix` where it ends with it.
pub fn drop_suffix(s: String, suffix: &str) -> (r: String)
    ensures
        r@ == without_suffix(s@, suffix@),
{
    match strip_suffix(s.as_str(), suffix) {
        Some(rest) => rest,
        None => s,
    }
}

/// `s` without the fence of a code block.
pub open spec fn unfenced(s: Seq<char>) -> Seq<char> {
    trim_seq(
        without_suffix(
            without_prefix(without_prefix(trim_seq(s), "```json"@), "```"@),
            "```"@,
        ),
    )
}

/// Takes the fence of a code block off an answer.
pub fn strip_code_block(s: &str) -> (r: String)
    ensures
        r@ == unfenced(s@),
{
    let t = drop_prefix(trim(s), "```json");
    let t = drop_prefix(t, "```");
    let t = drop_suffix(t, "```");
    trim(t.as_str())
}

/// `b` in a code block with the given opening, with white space inside and around it.
pub open spec fn in_block(
    before: Seq<char>,
    opening: Seq<char>,
    lead: Seq<char>,
    b: Seq<char>,
    tail: Seq<char>,
    after: Seq<char>,
) -> Seq<char> {
    before + (opening + lead + b + tail + "```"@) + after
}

/// A text in a code block is all of its trimmed text but for the fence.
pub(crate) proof fn lemma_in_block(
    before: Seq<char>,
    opening: Seq<char>,
    lead: Seq<char>,
    b: Seq<char>,
    tail: Seq<char>,
    after: Seq<char>,
)
    requires
        all_space(before),
        all_space(after),
        all_space(lead),
        lead.len() > 0,
        opening == "```json"@ || opening == "```"@,
    ensures
        ({
            let t = trim_seq(in_block(before, opening, lead, b, tail, after));
            &&& t == opening + (lead + b + tail + "```"@)
            &&& has_prefix(t, "```"@)
            &&& has_prefix(t, "```json"@) <==> opening == "```json"@
            &&& has_prefix(t, opening)
            &&& t.skip(opening.len() as int) == lead + b + tail + "```"@
            &&& !has_prefix(t.skip(opening.len() as int), "```"@)
        }),
{
    reveal_strlit("```json");
    reveal_strlit("```");
    let x = opening + lead + b + tail + "```"@;
    let rest = lead + b + tail + "```"@;
    assert(x =~= opening + rest);
    assert(x[0] == '`' && x.last() == '`');
    assert(trim_seq(x) == x);
    law_trim_takes_padding_off(before, x, after);
    assert(x.take(opening.len() as int) =~= opening);
    assert(x.skip(opening.len() as int) =~= rest);
    assert(rest[0] == lead[0]);
    assert(is_space(lead[0]));
    if has_prefix(rest, "```"@) {
        assert(rest.take(3)[0] == "```"@[0]);
    }
    assert(x.take(3) =~= "```"@);
    if opening == "```"@ && has_prefix(x, "```json"@) {
        assert(x[3] == lead[0]);
        assert(x.take(7)[3] == "```json"@[3]);
    }
}

/// A text without white space at its ends, put in a code block with or without the name
/// of the language, comes back as it was, whatever white space stands around the text
/// and around the block.
pub proof fn law_fenced_answer_comes_back(
    before: Seq<char>,
    opening: Seq<char>,
    lead: Seq<char>,
    b: Seq<char>,
    tail: Seq<char>,
    after: Seq<char>,
)
    requires
        trim_seq(b) == b,
        all_space(before),
        all_space(after),
        all_space(lead),
        all_space(tail),
        lead.len() > 0,
        opening == "```json"@ || opening == "```"@,
    ensures
        unfenced(in_block(before, opening, lead, b, tail, after)) == b,
{
    lemma_in_block(before, opening, lead, b, tail, after);
    let t = trim_seq(in_block(before, opening, lead, b, tail, after));
    let rest = t.skip(opening.len() as int);
    assert(without_prefix(without_prefix(t, "```json"@), "```"@) == rest);
    assert(rest.skip(rest.len() - "```"@.len()) =~= "```"@);
    assert(rest.take(rest.len() - "```"@.len()) =~= lead + b + tail);
    law_trim_takes_padding_off(lead, b, tail);
}

/// A text without a fence and without white space at its ends comes back as it was,
/// whatever white space stands around it.
pub proof fn law_bare_answer_comes_back(before: Seq<char>, b: Seq<char>, after: Seq<char>)
    requires
        trim_seq(b) == b,
        all_space(before),
        all_space(after),
        !has_prefix(b, "```"@),
        !has_suffix(b, "```"@),
    ensures
        unfenced(before + b + after) == b,
{
    reveal_strlit("```json");
    reveal_strlit("```");
    law_trim_takes_padding_off(before, b, after);
    if has_prefix(b, "```json"@) {
        assert(b.take(3) =~= b.take(7).take(3));
        assert("```json"@.take(3) =~= "```"@);
    }
}

/// A candidate that becomes an event.
pub struct Kept {
    pub row: CandidateRow,
    pub category: String,
    pub score: u8,
}

/// The same as a mathematical value.
#[verifier::ext_equal]
pub struct KeptView {
    pub row: CandidateRowView,
    pub category: Seq<char>,
    pub score: u8,
}

impl DeepView for Kept {
    type V = KeptView;

    open spec fn deep_view(&self) -> KeptView {
        KeptView { row: self.row.deep_view(), category: self.category@, score: self.score }
    }
}

/// The score keeps a candidate.
pub open spec fn keeps(e: ScoredEntryView, candidates: int, score_min: u8) -> bool {
    e.score >= score_min && known_category(e.category) && e.i < candidates
}

/// The candidates that become events, in the order of their scores.
pub open spec fn kept_of(
    entries: Seq<ScoredEntryView>,
    candidates: Seq<CandidateRowView>,
    score_min: u8,
) -> Seq<KeptView>
    decreases entries.len(),
{
    if entries.len() == 0 {
        Seq::empty()
    } else {
        let before = kept_of(entries.drop_last(), candidates, score_min);
        let e = entries.last();
        if keeps(e, candidates.len() as int, score_min) {
            before.push(
                KeptView { row: candidates[e.i as int], category: e.category, score: e.score },
            )
        } else {
            before
        }
    }
}

/// The candidates that become events: those with a score of at least `score_min`, a
/// known kind and a number that is one of theirs.
pub fn keep(entries: &Vec<ScoredEntry>, candidates: &Vec<CandidateRow>, score_min: u8) -> (r: Vec<
    Kept,
>)
    ensures
        r.deep_view() == kept_of(entries.deep_view(), candidates.deep_view(), score_min),
{
    let ghost all = entries.deep_view();
    let ghost cs = candidates.deep_view();
    let mut out: Vec<Kept> = Vec::new();
    assert(out.deep_view() =~= kept_of(all.take(0), cs, score_min));
    for i in 0..entries.len()
        invariant
            all == entries.deep_view(),
            cs == candidates.deep_view(),
            out.deep_view() == kept_of(all.take(i as int), cs, score_min),
    {
        assert(all[i as int] == entries@[i as int].deep_view());
        assert(all.take(i + 1).drop_last() =~= all.take(i as int));
        let e = &entries[i];
        let at: usize = e.i as usize;
        if e.score >= score_min && is_valid_category(e.category.as_str()) && at
            < candidates.len() {
            let ghost before = out.deep_view();
            assert(cs[at as int] == candidates@[at as int].deep_view());
            out.push(
                Kept {
                    row: candidates[at].copy(),
                    category: e.category.clone(),
                    score: e.score,
                },
            );
            assert(out.deep_view() =~= before.push(
                KeptView { row: cs[at as int], category: e.category@, score: e.score },
            ));
        }
    }
    assert(all.take(entries@.len() as int) =~= all);
    out
}

/// Everything that is kept was a candidate, with a score of at least `score_min` and
/// a known kind.
pub proof fn law_only_good_candidates_are_kept(
    entries: Seq<ScoredEntryView>,
    candidates: Seq<CandidateRowView>,
    score_min: u8,
)
    ensures
        kept_of(entries, candidates, score_min).len() <= entries.len(),
        forall|i: int|
            0 <= i < kept_of(entries, candidates, score_min).len() ==> {
                let k = #[trigger] kept_of(entries, candidates, score_min)[i];
                k.score >= score_min && known_category(k.category) && candidates.contains(k.row)
            },
    decreases entries.len(),
{
    if entries.len() > 0 {
        law_only_good_candidates_are_kept(entries.drop_last(), candidates, score_min);
        let before = kept_of(entries.drop_last(), candidates, score_min);
        let all = kept_of(entries, candidates, score_min);
        assert forall|i: int| 0 <= i < all.len() implies {
            let k = #[trigger] all[i];
            k.score >= score_min && known_category(k.category) && candidates.contains(k.row)
        } by {
            if i < before.len() {
                assert(all[i] == before[i]);
            }
        }
    }
}

/// The candidates that could be read, in their order.
pub open spec fn readable(d: Seq<Option<CandidateRowView>>) -> Seq<CandidateRowView>
    decreases d.len(),
{
    if d.len() == 0 {
        Seq::empty()
    } else {
        match d.last() {
            Some(c) => readable(d.drop_last()).push(c),
            None => readable(d.drop_last()),
        }
    }
}

/// The texts at the places of the candidates that could be read, in their order.
pub open spec fn readable_raw(
    raw: Seq<Seq<char>>,
    d: Seq<Option<CandidateRowView>>,
) -> Seq<Seq<char>>
    decreases d.len(),
{
    if d.len() == 0 {
        Seq::empty()
    } else {
        let before = readable_raw(raw, d.drop_last());
        if d.last() is Some && d.len() <= raw.len() {
            before.push(raw[d.len() - 1])
        } else {
            before
        }
    }
}

fn read_texts(raw: &Vec<String>, d: &Vec<Option<CandidateRow>>) -> (r: Vec<String>)
    ensures
        r.deep_view() == readable_raw(raw.deep_view(), d.deep_view()),
{
    let ghost texts = raw.deep_view();
    let ghost all = d.deep_view();
    let mut out: Vec<String> = Vec::new();
    assert(out.deep_view() =~= readable_raw(texts, all.take(0)));
    for i in 0..d.len()
        invariant
            texts == raw.deep_view(),
            all == d.deep_view(),
            out.deep_view() == readable_raw(texts, all.take(i as int)),
    {
        assert(all[i as int] == d@[i as int].deep_view());
        assert(all.take(i + 1).drop_last() =~= all.take(i as int));
        if d[i].is_some() && i < raw.len() {
            let ghost before = out.deep_view();
            assert(texts[i as int] == raw@[i as int]@);
            push_text(&mut out, raw[i].as_str());
            assert(out.deep_view() =~= before.push(texts[i as int]));
        }
    }
    assert(all.take(d@.len() as int) =~= all);
    out
}

fn read_ones(d: &Vec<Option<CandidateRow>>) -> (r: Vec<CandidateRow>)
    ensures
        r.deep_view() == readable(d.deep_view()),
{
    let ghost all = d.deep_view();
    let mut out: Vec<CandidateRow> = Vec::new();
    assert(out.deep_view() =~= readable(all.take(0)));
    for i in 0..d.len()
        invariant
            all == d.deep_view(),
            out.deep_view() == readable(all.take(i as int)),
    {
        assert(all[i as int] == d@[i as int].deep_view());
        assert(all.take(i + 1).drop_last() =~= all.take(i as int));
        if let Some(c) = &d[i] {
            let ghost before = out.deep_view();
            out.push(c.copy());
            assert(out.deep_view() =~= before.push(c.deep_view()));
        }
    }
    assert(all.take(d@.len() as int) =~= all);
    out
}

/// The lowest message number among the candidates.
pub open spec fn oldest(cs: Seq<CandidateRowView>) -> i64
    decreases cs.len(),
{
    if cs.len() == 0 {
        i64::MAX
    } else {
        let before = oldest(cs.drop_last());
        if cs.last().sqlite_message_id < before {
            cs.last().sqlite_message_id
        } else {
            before
        }
    }
}

fn oldest_id(cs: &Vec<CandidateRow>) -> (r: i64)
    ensures
        r == oldest(cs.deep_view()),
{
    let ghost all = cs.deep_view();
    let mut m: i64 = i64::MAX;
    assert(all.take(0) =~= Seq::empty());
    for i in 0..cs.len()
        invariant
            all == cs.deep_view(),
            m == oldest(all.take(i as int)),
    {
        assert(all[i as int] == cs@[i as int].deep_view());
        assert(all.take(i + 1).drop_last() =~= all.take(i as int));
        if cs[i].sqlite_message_id < m {
            m = cs[i].sqlite_message_id;
        }
    }
    assert(all.take(cs@.len() as int) =~= all);
    m
}

fn chronological(rows: Vec<ContextRow>) -> (r: Vec<ContextRow>)
    ensures
        r.deep_view() == rows.deep_view().reverse(),
{
    let ghost all = rows.deep_view();
    let mut from = rows;
    let mut out: Vec<ContextRow> = Vec::new();
    assert(all.take(all.len() as int) =~= all);
    assert(out.deep_view() =~= all.reverse().take(0));
    while from.len() > 0
        invariant
            from.len() <= all.len(),
            from.deep_view() == all.take(from.len() as int),
            out.deep_view() == all.reverse().take(all.len() - from.len()),
        decreases from.len(),
    {
        let ghost n = from.len() as int;
        let ghost before = out.deep_view();
        let ghost shown = from.deep_view();
        match from.pop() {
            Some(row) => {
                assert(shown[n - 1] == row.deep_view());
                assert(from.deep_view() =~= all.take(n - 1));
                out.push(row);
                assert(out.deep_view() =~= before.push(all[n - 1]));
                assert(all.reverse().take(all.len() - n + 1) =~= all.reverse().take(
                    all.len() - n,
                ).push(all[n - 1]));
            },
            None => {},
        }
    }
    assert(all.reverse().take(all.len() as int) =~= all.reverse());
    out
}

/// The texts of what is kept.
pub open spec fn kept_texts(kept: Seq<KeptView>) -> Seq<Seq<char>> {
    Seq::new(kept.len(), |i: int| event_text(kept[i].row))
}

fn texts_of(kept: &Vec<Kept>) -> (r: Vec<String>)
    ensures
        r.deep_view() == kept_texts(kept.deep_view()),
{
    let ghost all = kept_texts(kept.deep_view());
    let mut out: Vec<String> = Vec::new();
    assert(out.deep_view() =~= all.take(0));
    for i in 0..kept.len()
        invariant
            all == kept_texts(kept.deep_view()),
            out.deep_view() == all.take(i as int),
    {
        assert(kept.deep_view()[i as int] == kept@[i as int].deep_view());
        let t = format_event_text(&kept[i].row);
        push_text(&mut out, t.as_str());
        assert(out.deep_view() =~= all.take(i + 1));
    }
    assert(all.take(kept@.len() as int) =~= all);
    out
}

/// What the scoring waits for.
#[derive(Clone, Copy, Debug, PartialEq, Eq, Structural)]
pub enum ScorePhase {
    /// The length of the buffer.
    Measuring,
    /// The contents of the buffer.
    Popping,
    /// The candidates, read.
    Decoding,
    /// The messages before them.
    Looking,
    /// A model's answer.
    Asking,
    /// The candidates being put back.
    Requeuing,
    /// The answer, read.
    Parsing,
    /// The answer without its fence, read.
    Reparsing,
    /// The vectors of what is kept.
    Embedding,
    /// An event being stored.
    Storing,
    /// The vector of one of what is kept.
    EmbeddingOne,
    /// An event being stored whose vector came by itself.
    StoringOne,
    /// Nothing any more.
    Ended,
}

/// A scoring between two of its steps.
pub struct ScoreRun {
    pub phase: ScorePhase,
    pub threshold: i64,
    pub score_min: u8,
    pub models: Vec<String>,
    pub raw: Vec<String>,
    pub candidates: Vec<CandidateRow>,
    pub prompt: String,
    pub tried: usize,
    pub answer: String,
    pub kept: Vec<Kept>,
    pub next: usize,
}

/// The same as a mathematical value.
#[verifier::ext_equal]
pub struct ScoreRunView {
    pub phase: ScorePhase,
    pub threshold: i64,
    pub score_min: u8,
    pub models: Seq<Seq<char>>,
    pub raw: Seq<Seq<char>>,
    pub candidates: Seq<CandidateRowView>,
    pub prompt: Seq<char>,
    pub tried: int,
    pub answer: Seq<char>,
    pub kept: Seq<KeptView>,
    pub next: int,
}

/// What happened since the last step.
pub enum ScoreEvent {
    /// The buffer has this length.
    Length(i64),
    /// The buffer held these texts.
    Popped(Vec<String>),
    /// The texts were read; none where one is no candidate.
    Decoded(Vec<Option<CandidateRow>>),
    /// The messages before, the latest first.
    Context(Vec<ContextRow>),
    /// The model answered.
    Answered(String),
    /// The answer was read.
    Parsed(Vec<ScoredEntry>),
    /// This many vectors came.
    Vectors(usize),
    /// What was asked for is done.
    Did,
    /// What was asked for failed.
    Failed(Error),
}

/// The same as a mathematical value.
#[verifier::ext_equal]
pub enum ScoreEventView {
    Length(i64),
    Popped(Seq<Seq<char>>),
    Decoded(Seq<Option<CandidateRowView>>),
    Context(Seq<ContextRowView>),
    Answered(Seq<char>),
    Parsed(Seq<ScoredEntryView>),
    Vectors(int),
    Did,
    Failed(ErrorView),
}

/// What the scoring asks for next.
pub enum ScoreAction {
    /// Measure the buffer.
    Measure,
    /// Empty the buffer.
    Pop,
    /// Read these texts, each by itself.
    Decode(Vec<String>),
    /// Find the `limit` messages before the one with this number, the latest first.
    Look { before: i64, limit: i64 },
    /// Ask this model.
    Ask { model: String, messages: Vec<Message> },
    /// Put these texts back.
    Requeue(Vec<String>),
    /// Read this answer.
    Parse(String),
    /// Embed these texts.
    Embed(Vec<String>),
    /// Store an event with the vector at `index`.
    Store { index: usize, source: i64, text: String, category: String, score: u8 },
    /// The scoring is done.
    Done,
    /// The scoring is given up.
    Fail(Error),
}

/// The same as a mathematical value.
#[verifier::ext_equal]
pub enum ScoreActionView {
    Measure,
    Pop,
    Decode(Seq<Seq<char>>),
    Look { before: i64, limit: i64 },
    Ask { model: Seq<char>, messages: Seq<MessageView> },
    Requeue(Seq<Seq<char>>),
    Parse(Seq<char>),
    Embed(Seq<Seq<char>>),
    Store { index: int, source: i64, text: Seq<char>, category: Seq<char>, score: u8 },
    Done,
    Fail(ErrorView),
}

impl DeepView for ScoreRun {
    type V = ScoreRunView;

    open spec fn deep_view(&self) -> ScoreRunView {
        ScoreRunView {
            phase: self.phase,
            threshold: self.threshold,
            score_min: self.score_min,
            models: self.models.deep_view(),
            raw: self.raw.deep_view(),
            candidates: self.candidates.deep_view(),
            prompt: self.prompt@,
            tried: self.tried as int,
            answer: self.answer@,
            kept: self.kept.deep_view(),
            next: self.next as int,
        }
    }
}

impl DeepView for ScoreEvent {
    type V = ScoreEventView;

    open spec fn deep_view(&self) -> ScoreEventView {
        match self {
            ScoreEvent::Length(n) => ScoreEventView::Length(*n),
            ScoreEvent::Popped(t) => ScoreEventView::Popped(t.deep_view()),
            ScoreEvent::Decoded(d) => ScoreEventView::Decoded(d.deep_view()),
            ScoreEvent::Context(c) => ScoreEventView::Context(c.deep_view()),
            ScoreEvent::Answered(t) => ScoreEventView::Answered(t@),
            ScoreEvent::Parsed(e) => ScoreEventView::Parsed(e.deep_view()),
            ScoreEvent::Vectors(n) => ScoreEventView::Vectors(*n as int),
            ScoreEvent::Did => ScoreEventView::Did,
            ScoreEvent::Failed(e) => ScoreEventView::Failed(e.deep_view()),
        }
    }
}

impl DeepView for ScoreAction {
    type V = ScoreActionView;

    open spec fn deep_view(&self) -> ScoreActionView {
        match self {
            ScoreAction::Measure => ScoreActionView::Measure,
            ScoreAction::Pop => ScoreActionView::Pop,
            ScoreAction::Decode(t) => ScoreActionView::Decode(t.deep_view()),
            ScoreAction::Look { before, limit } => ScoreActionView::Look {
                before: *before,
                limit: *limit,
            },
            ScoreAction::Ask { model, messages } => ScoreActionView::Ask {
                model: model@,
                messages: messages.deep_view(),
            },
            ScoreAction::Requeue(t) => ScoreActionView::Requeue(t.deep_view()),
            ScoreAction::Parse(t) => ScoreActionView::Parse(t@),
            ScoreAction::Embed(t) => ScoreActionView::Embed(t.deep_view()),
            ScoreAction::Store { index, source, text, category, score } =>
                ScoreActionView::Store {
                index: *index as int,
                source: *source,
                text: text@,
                category: category@,
                score: *score,
            },
            ScoreAction::Done => ScoreActionView::Done,
            ScoreAction::Fail(e) => ScoreActionView::Fail(e.deep_view()),
        }
    }
}

impl ScoreRunView {
    /// What is embedded or stored next is one of what is kept.
    pub open spec fn wf(self) -> bool {
        self.phase is Storing || self.phase is EmbeddingOne || self.phase is StoringOne ==> 0
            <= self.next < self.kept.len()
    }

    /// Goes to a phase.
    pub open spec fn to(self, phase: ScorePhase) -> ScoreRunView {
        ScoreRunView { phase, ..self }
    }

    /// Ends.
    pub open spec fn end(self) -> (ScoreRunView, ScoreActionView) {
        (self.to(ScorePhase::Ended), ScoreActionView::Done)
    }

    /// Gives up.
    pub open spec fn fail(self, e: ErrorView) -> (ScoreRunView, ScoreActionView) {
        (self.to(ScorePhase::Ended), ScoreActionView::Fail(e))
    }

    /// Asks the next model, or puts the candidates back where all have been asked.
    pub open spec fn ask(self) -> (ScoreRunView, ScoreActionView) {
        if 0 <= self.tried < self.models.len() {
            (
                ScoreRunView { phase: ScorePhase::Asking, tried: self.tried + 1, ..self },
                ScoreActionView::Ask {
                    model: self.models[self.tried],
                    messages: two_messages(SCORE_SYSTEM_PROMPT@, self.prompt),
                },
            )
        } else {
            (self.to(ScorePhase::Requeuing), ScoreActionView::Requeue(self.raw))
        }
    }

    /// Keeps what scored well enough.
    pub open spec fn select(self, entries: Seq<ScoredEntryView>) -> (
        ScoreRunView,
        ScoreActionView,
    ) {
        let kept = kept_of(entries, self.candidates, self.score_min);
        if kept.len() == 0 {
            self.end()
        } else {
            (
                ScoreRunView { phase: ScorePhase::Embedding, kept, ..self },
                ScoreActionView::Embed(kept_texts(kept)),
            )
        }
    }

    /// Embeds what is kept at place `i`, or ends where nothing stands there.
    pub open spec fn embed_one(self, i: int) -> (ScoreRunView, ScoreActionView) {
        if i < self.kept.len() {
            (
                ScoreRunView { phase: ScorePhase::EmbeddingOne, next: i, ..self },
                ScoreActionView::Embed(seq![event_text(self.kept[i].row)]),
            )
        } else {
            self.end()
        }
    }

    /// Stores what is kept at place `i` with the vector at `index`.
    pub open spec fn store(self, phase: ScorePhase, i: int, index: int) -> (
        ScoreRunView,
        ScoreActionView,
    ) {
        (
            ScoreRunView { phase, next: i, ..self },
            ScoreActionView::Store {
                index,
                source: self.kept[i].row.sqlite_message_id,
                text: event_text(self.kept[i].row),
                category: self.kept[i].category,
                score: self.kept[i].score,
            },
        )
    }

    /// What an event leads to.
    pub open spec fn on(self, event: ScoreEventView) -> (ScoreRunView, ScoreActionView) {
        match (self.phase, event) {
            (ScorePhase::Measuring, ScoreEventView::Length(n)) => if n < self.threshold {
                self.end()
            } else {
                (self.to(ScorePhase::Popping), ScoreActionView::Pop)
            },
            (ScorePhase::Popping, ScoreEventView::Popped(raw)) => if raw.len() == 0 {
                self.end()
            } else {
                (
                    ScoreRunView { phase: ScorePhase::Decoding, raw, ..self },
                    ScoreActionView::Decode(raw),
                )
            },
            (ScorePhase::Decoding, ScoreEventView::Decoded(d)) => {
                let candidates = readable(d);
                if candidates.len() == 0 {
                    self.end()
                } else {
                    (
                        ScoreRunView {
                            phase: ScorePhase::Looking,
                            raw: readable_raw(self.raw, d),
                            candidates,
                            ..self
                        },
                        ScoreActionView::Look {
                            before: oldest(candidates),
                            limit: CONTEXT_MESSAGES,
                        },
                    )
                }
            },
            (ScorePhase::Looking, ScoreEventView::Context(rows)) => ScoreRunView {
                prompt: score_payload(rows.reverse(), self.candidates),
                tried: 0,
                ..self
            }.ask(),
            (ScorePhase::Looking, _) => ScoreRunView {
                prompt: score_payload(Seq::empty(), self.candidates),
                tried: 0,
                ..self
            }.ask(),
            (ScorePhase::Asking, ScoreEventView::Answered(t)) => if trim_seq(t).len() > 0 {
                (
                    ScoreRunView { phase: ScorePhase::Parsing, answer: trim_seq(t), ..self },
                    ScoreActionView::Parse(trim_seq(t)),
                )
            } else {
                self.ask()
            },
            (ScorePhase::Asking, _) => self.ask(),
            (ScorePhase::Parsing, ScoreEventView::Parsed(entries)) => self.select(entries),
            (ScorePhase::Parsing, _) => (
                self.to(ScorePhase::Reparsing),
                ScoreActionView::Parse(unfenced(self.answer)),
            ),
            (ScorePhase::Reparsing, ScoreEventView::Parsed(entries)) => self.select(entries),
            (ScorePhase::Reparsing, _) => self.end(),
            (ScorePhase::Embedding, ScoreEventView::Vectors(n)) => if n == self.kept.len() && n
                > 0 {
                self.store(ScorePhase::Storing, 0, 0)
            } else {
                self.end()
            },
            (ScorePhase::Embedding, _) => self.embed_one(0),
            (ScorePhase::Storing, _) => if self.next + 1 < self.kept.len() {
                self.store(ScorePhase::Storing, self.next + 1, self.next + 1)
            } else {
                self.end()
            },
            (ScorePhase::EmbeddingOne, ScoreEventView::Vectors(n)) => if n == 1 {
                self.store(ScorePhase::StoringOne, self.next, 0)
            } else {
                self.embed_one(self.next + 1)
            },
            (ScorePhase::EmbeddingOne, _) => self.embed_one(self.next + 1),
            (ScorePhase::StoringOne, _) => self.embed_one(self.next + 1),
            (_, ScoreEventView::Failed(e)) => self.fail(e),
            (_, _) => self.end(),
        }
    }
}

/// A scoring before its first step.
pub open spec fn fresh_score(
    threshold: u32,
    score_min: u8,
    models: Seq<Seq<char>>,
) -> ScoreRunView {
    ScoreRunView {
        phase: if threshold == 0 {
            ScorePhase::Ended
        } else {
            ScorePhase::Measuring
        },
        threshold: threshold as i64,
        score_min,
        models,
        raw: Seq::empty(),
        candidates: Seq::empty(),
        prompt: Seq::empty(),
        tried: 0,
        answer: Seq::empty(),
        kept: Seq::empty(),
        next: 0,
    }
}

/// Starts a scoring. A threshold of 0 switches it off.
pub fn maybe_score(threshold: u32, score_min: u8, models: Vec<String>) -> (r: (
    ScoreRun,
    ScoreAction,
))
    ensures
        r.0.deep_view() == fresh_score(threshold, score_min, models.deep_view()),
        r.1.deep_view() == (if threshold == 0 {
            ScoreActionView::Done
        } else {
            ScoreActionView::Measure
        }),
        r.0.deep_view().wf(),
{
    let run = ScoreRun {
        phase: if threshold == 0 {
            ScorePhase::Ended
        } else {
            ScorePhase::Measuring
        },
        threshold: threshold as i64,
        score_min,
        models,
        raw: Vec::new(),
        candidates: Vec::new(),
        prompt: String::new(),
        tried: 0,
        answer: String::new(),
        kept: Vec::new(),
        next: 0,
    };
    assert(run.deep_view() =~= fresh_score(threshold, score_min, models.deep_view()));
    if threshold == 0 {
        (run, ScoreAction::Done)
    } else {
        (run, ScoreAction::Measure)
    }
}

impl ScoreRun {
    fn end(&mut self) -> (r: ScoreAction)
        ensures
            (final(self).deep_view(), r.deep_view()) == old(self).deep_view().end(),
    {
        self.phase = ScorePhase::Ended;
        assert(self.deep_view() =~= old(self).deep_view().end().0);
        ScoreAction::Done
    }

    fn ask(&mut self) -> (r: ScoreAction)
        ensures
            (final(self).deep_view(), r.deep_view()) == old(self).deep_view().ask(),
            final(self).deep_view().wf(),
    {
        if self.tried < self.models.len() {
            assert(self.deep_view().models[self.tried as int]
                == self.models@[self.tried as int]@);
            let model = self.models[self.tried].clone();
            let messages = system_and_user(SCORE_SYSTEM_PROMPT, self.prompt.clone());
            self.tried = self.tried + 1;
            self.phase = ScorePhase::Asking;
            assert(self.deep_view() =~= old(self).deep_view().ask().0);
            return ScoreAction::Ask { model, messages };
        }
        self.phase = ScorePhase::Requeuing;
        let raw = copy_texts(&self.raw);
        assert(raw.deep_view() =~= self.raw.deep_view());
        assert(self.deep_view() =~= old(self).deep_view().ask().0);
        ScoreAction::Requeue(raw)
    }

    fn select_from(&mut self, entries: &Vec<ScoredEntry>) -> (r: ScoreAction)
        ensures
            (final(self).deep_view(), r.deep_view()) == old(self).deep_view().select(
                entries.deep_view(),
            ),
            final(self).deep_view().wf(),
    {
        let kept = keep(entries, &self.candidates, self.score_min);
        if kept.len() == 0 {
            return self.end();
        }
        let texts = texts_of(&kept);
        self.kept = kept;
        self.phase = ScorePhase::Embedding;
        assert(self.deep_view() =~= old(self).deep_view().select(entries.deep_view()).0);
        ScoreAction::Embed(texts)
    }

    fn embed_one(&mut self, i: usize) -> (r: ScoreAction)
        ensures
            (final(self).deep_view(), r.deep_view()) == old(self).deep_view().embed_one(i as int),
            final(self).deep_view().wf(),
    {
        if i >= self.kept.len() {
            return self.end();
        }
        self.phase = ScorePhase::EmbeddingOne;
        self.next = i;
        assert(self.deep_view().kept[i as int] == self.kept@[i as int].deep_view());
        assert(self.deep_view() =~= old(self).deep_view().embed_one(i as int).0);
        let text = format_event_text(&self.kept[i].row);
        let mut texts: Vec<String> = Vec::new();
        push_text(&mut texts, text.as_str());
        assert(texts.deep_view() =~= seq![text@]);
        ScoreAction::Embed(texts)
    }

    fn embed_next(&mut self) -> (r: ScoreAction)
        requires
            old(self).next < old(self).kept.len(),
        ensures
            (final(self).deep_view(), r.deep_view()) == old(self).deep_view().embed_one(
                old(self).next + 1,
            ),
            final(self).deep_view().wf(),
    {
        self.embed_one(self.next + 1)
    }

    fn store(&mut self, phase: ScorePhase, i: usize, index: usize) -> (r: ScoreAction)
        requires
            i < old(self).kept.len(),
        ensures
            (final(self).deep_view(), r.deep_view()) == old(self).deep_view().store(
                phase,
                i as int,
                index as int,
            ),
            final(self).deep_view().wf(),
    {
        self.phase = phase;
        self.next = i;
        assert(self.deep_view().kept[i as int] == self.kept@[i as int].deep_view());
        assert(self.deep_view() =~= old(self).deep_view().store(phase, i as int, index as int).0);
        let k = &self.kept[i];
        ScoreAction::Store {
            index,
            source: k.row.sqlite_message_id,
            text: format_event_text(&k.row),
            category: k.category.clone(),
            score: k.score,
        }
    }

    /// Takes in what happened and says what to do next.
    pub fn advance(&mut self, event: ScoreEvent) -> (r: ScoreAction)
        requires
            old(self).deep_view().wf(),
        ensures
            (final(self).deep_view(), r.deep_view()) == old(self).deep_view().on(
                event.deep_view(),
            ),
            final(self).deep_view().wf(),
    {
        let ghost v = self.deep_view();
        let ghost ev = event.deep_view();
        match (self.phase, event) {
            (ScorePhase::Measuring, ScoreEvent::Length(n)) => {
                if n < self.threshold {
                    return self.end();
                }
                self.phase = ScorePhase::Popping;
                assert(self.deep_view() =~= v.on(ev).0);
                ScoreAction::Pop
            },
            (ScorePhase::Popping, ScoreEvent::Popped(raw)) => {
                if raw.len() == 0 {
                    return self.end();
                }
                let texts = copy_texts(&raw);
                assert(texts.deep_view() =~= raw.deep_view());
                self.raw = raw;
                self.phase = ScorePhase::Decoding;
                assert(self.deep_view() =~= v.on(ev).0);
                ScoreAction::Decode(texts)
            },
            (ScorePhase::Decoding, ScoreEvent::Decoded(d)) => {
                let candidates = read_ones(&d);
                if candidates.len() == 0 {
                    return self.end();
                }
                let before = oldest_id(&candidates);
                let raw = read_texts(&self.raw, &d);
                self.raw = raw;
                self.candidates = candidates;
                self.phase = ScorePhase::Looking;
                assert(self.deep_view() =~= v.on(ev).0);
                ScoreAction::Look { before, limit: CONTEXT_MESSAGES }
            },
            (ScorePhase::Looking, ScoreEvent::Context(rows)) => {
                let context = chronological(rows);
                let prompt = format_score_payload(&context, &self.candidates);
                self.prompt = prompt;
                self.tried = 0;
                self.ask()
            },
            (ScorePhase::Looking, _) => {
                let context: Vec<ContextRow> = Vec::new();
                assert(context.deep_view() =~= Seq::<ContextRowView>::empty());
                let prompt = format_score_payload(&context, &self.candidates);
                self.prompt = prompt;
                self.tried = 0;
                self.ask()
            },
            (ScorePhase::Asking, ScoreEvent::Answered(t)) => {
                if is_blank(t.as_str()) {
                    return self.ask();
                }
                let answer = trim(t.as_str());
                self.answer = answer.clone();
                self.phase = ScorePhase::Parsing;
                assert(self.deep_view() =~= v.on(ev).0);
                ScoreAction::Parse(answer)
            },
            (ScorePhase::Asking, _) => self.ask(),
            (ScorePhase::Parsing, ScoreEvent::Parsed(entries)) => self.select_from(&entries),
            (ScorePhase::Parsing, _) => {
                let bare = strip_code_block(self.answer.as_str());
                self.phase = ScorePhase::Reparsing;
                assert(self.deep_view() =~= v.to(ScorePhase::Reparsing));
                ScoreAction::Parse(bare)
            },
            (ScorePhase::Reparsing, ScoreEvent::Parsed(entries)) => self.select_from(&entries),
            (ScorePhase::Reparsing, _) => self.end(),
            (ScorePhase::Embedding, ScoreEvent::Vectors(n)) => {
                if n == self.kept.len() && n > 0 {
                    return self.store(ScorePhase::Storing, 0, 0);
                }
                self.end()
            },
            (ScorePhase::Storing, _) => {
                assert(self.next < self.kept.len());
                if self.next + 1 < self.kept.len() {
                    return self.store(ScorePhase::Storing, self.next + 1, self.next + 1);
                }
                self.end()
            },
            (ScorePhase::Embedding, _) => self.embed_one(0),
            (ScorePhase::EmbeddingOne, ScoreEvent::Vectors(n)) => {
                if n == 1 {
                    return self.store(ScorePhase::StoringOne, self.next, 0);
                }
                self.embed_next()
            },
            (ScorePhase::EmbeddingOne, _) => self.embed_next(),
            (ScorePhase::StoringOne, _) => self.embed_next(),
            (_, ScoreEvent::Failed(e)) => {
                self.phase = ScorePhase::Ended;
                assert(self.deep_view() =~= v.fail(e.deep_view()).0);
                ScoreAction::Fail(e)
            },
            (_, _) => self.end(),
        }
    }

    /// How many candidates the answer dropped.
    pub fn dropped(&self) -> (r: usize)
        ensures
            r == (if self.candidates@.len() >= self.kept@.len() {
                self.candidates@.len() - self.kept@.len()
            } else {
                0
            }),
    {
        if self.candidates.len() >= self.kept.len() {
            self.candidates.len() - self.kept.len()
        } else {
            0
        }
    }
}

/// An answer that cannot be read is read once more without the fence of a code block,
/// and a batch whose answer cannot be read either way is dropped: nothing is stored
/// and nothing is put back.
pub proof fn law_unreadable_answer_drops_the_batch(
    run: ScoreRunView,
    first: ScoreEventView,
    second: ScoreEventView,
)
    requires
        run.phase is Parsing,
        !(first is Parsed),
        !(second is Parsed),
    ensures
        run.on(first).1 == ScoreActionView::Parse(unfenced(run.answer)),
        run.on(first).0.on(second).1 == ScoreActionView::Done,
        run.on(first).0.on(second).0.phase is Ended,
{
}

/// What the run is after these events, and what it asked for after each of them.
pub open spec fn fed(run: ScoreRunView, events: Seq<ScoreEventView>) -> (
    ScoreRunView,
    Seq<ScoreActionView>,
)
    decreases events.len(),
{
    if events.len() == 0 {
        (run, Seq::empty())
    } else {
        let before = fed(run, events.drop_last());
        let step = before.0.on(events.last());
        (step.0, before.1.push(step.1))
    }
}

/// Asking a model came to nothing: it failed or its answer is blank.
pub open spec fn useless(event: ScoreEventView) -> bool {
    event matches ScoreEventView::Answered(t) ==> trim_seq(t).len() == 0
}

proof fn lemma_readable_fit(d: Seq<Option<CandidateRowView>>)
    ensures
        readable(d).len() <= d.len(),
    decreases d.len(),
{
    if d.len() > 0 {
        lemma_readable_fit(d.drop_last());
    }
}

proof fn lemma_useless_answers(
    run: ScoreRunView,
    d: Seq<Option<CandidateRowView>>,
    looked: ScoreEventView,
    answers: Seq<ScoreEventView>,
)
    requires
        run.phase is Decoding,
        readable(d).len() > 0,
        answers.len() <= run.models.len(),
        forall|i: int| 0 <= i < answers.len() ==> useless(#[trigger] answers[i]),
    ensures
        ({
            let after = fed(run, seq![ScoreEventView::Decoded(d), looked] + answers);
            &&& after.1.len() == answers.len() + 2
            &&& forall|i: int| 0 <= i < after.1.len() ==> !(#[trigger] after.1[i] is Store)
            &&& after.0.raw == readable_raw(run.raw, d)
            &&& after.0.models == run.models
            &&& answers.len() < run.models.len() ==> {
                &&& after.0.phase is Asking
                &&& after.0.tried == answers.len() + 1
            }
            &&& answers.len() == run.models.len() ==> {
                &&& after.0.phase is Requeuing
                &&& after.1.last() == ScoreActionView::Requeue(readable_raw(run.raw, d))
            }
        }),
    decreases answers.len(),
{
    let first = seq![ScoreEventView::Decoded(d), looked];
    let events = first + answers;
    if answers.len() == 0 {
        assert(events =~= first);
        assert(first.drop_last() =~= seq![ScoreEventView::Decoded(d)]);
        assert(first.drop_last().drop_last() =~= Seq::empty());
        reveal_with_fuel(fed, 3);
    } else {
        lemma_useless_answers(run, d, looked, answers.drop_last());
        assert(events.drop_last() =~= first + answers.drop_last());
        assert(events.last() == answers.last());
        assert(useless(answers[answers.len() - 1]));
    }
}

/// Where every model fails, the texts of the candidates that could be read are put
/// back, all of them and in their order; those of the others are not.
pub proof fn law_failed_scoring_puts_back(
    run: ScoreRunView,
    d: Seq<Option<CandidateRowView>>,
    looked: ScoreEventView,
    answers: Seq<ScoreEventView>,
)
    requires
        run.phase is Decoding,
        readable(d).len() > 0,
        answers.len() == run.models.len(),
        forall|i: int| 0 <= i < answers.len() ==> useless(#[trigger] answers[i]),
    ensures
        ({
            let asked = fed(run, seq![ScoreEventView::Decoded(d), looked] + answers).1;
            asked.len() > 0 && asked.last() == ScoreActionView::Requeue(
                readable_raw(run.raw, d),
            )
        }),
{
    lemma_useless_answers(run, d, looked, answers);
}

/// As many texts are put back as candidates could be read, each of them one that was
/// taken out.
pub proof fn law_put_back_were_taken_out(raw: Seq<Seq<char>>, d: Seq<Option<CandidateRowView>>)
    requires
        d.len() <= raw.len(),
    ensures
        readable_raw(raw, d).len() == readable(d).len(),
        forall|i: int|
            0 <= i < readable_raw(raw, d).len() ==> raw.contains(
                #[trigger] readable_raw(raw, d)[i],
            ),
    decreases d.len(),
{
    if d.len() > 0 {
        law_put_back_were_taken_out(raw, d.drop_last());
        let before = readable_raw(raw, d.drop_last());
        let all = readable_raw(raw, d);
        assert forall|i: int| 0 <= i < all.len() implies raw.contains(#[trigger] all[i]) by {
            if i < before.len() {
                assert(all[i] == before[i]);
            } else {
                assert(all[i] == raw[d.len() - 1]);
            }
        }
    }
}

/// Where all candidates could be read, all texts are put back.
pub proof fn law_all_readable_all_put_back(raw: Seq<Seq<char>>, d: Seq<Option<CandidateRowView>>)
    requires
        d.len() <= raw.len(),
        forall|i: int| 0 <= i < d.len() ==> (#[trigger] d[i]) is Some,
    ensures
        readable_raw(raw, d) == raw.take(d.len() as int),
    decreases d.len(),
{
    if d.len() == 0 {
        assert(raw.take(0) =~= Seq::empty());
    } else {
        law_all_readable_all_put_back(raw, d.drop_last());
        assert(d[d.len() - 1] is Some);
        assert(raw.take(d.len() - 1).push(raw[d.len() - 1]) =~= raw.take(d.len() as int));
    }
}

/// An event that was stored: the message it comes from, its text, the text whose vector
/// it was stored with, its kind and its score.
#[verifier::ext_equal]
pub struct StoredEventView {
    pub source: i64,
    pub text: Seq<char>,
    pub embedded: Seq<char>,
    pub category: Seq<char>,
    pub score: u8,
}

/// What becomes of a run in a world where these texts can be embedded and these can be
/// stored, while it asks for `action` and the vectors of `texts` are there: the events
/// that are stored in the next `fuel` steps.
pub open spec fn stored_by(
    run: ScoreRunView,
    action: ScoreActionView,
    texts: Seq<Seq<char>>,
    embeds: spec_fn(Seq<char>) -> bool,
    stores: spec_fn(Seq<char>) -> bool,
    e: ErrorView,
    fuel: nat,
) -> Seq<StoredEventView>
    decreases fuel,
{
    if fuel == 0 {
        Seq::empty()
    } else {
        let left = (fuel - 1) as nat;
        match action {
            ScoreActionView::Embed(t) => {
                let next = if forall|i: int| 0 <= i < t.len() ==> embeds(#[trigger] t[i]) {
                    run.on(ScoreEventView::Vectors(t.len() as int))
                } else {
                    run.on(ScoreEventView::Failed(e))
                };
                stored_by(next.0, next.1, t, embeds, stores, e, left)
            },
            ScoreActionView::Store { index, source, text, category, score } => {
                let next = if stores(text) {
                    run.on(ScoreEventView::Did)
                } else {
                    run.on(ScoreEventView::Failed(e))
                };
                let rest = stored_by(next.0, next.1, texts, embeds, stores, e, left);
                if stores(text) {
                    seq![
                        StoredEventView { source, text, embedded: texts[index], category, score },
                    ] + rest
                } else {
                    rest
                }
            },
            _ => Seq::empty(),
        }
    }
}

/// What is kept from place `i` on, without what cannot be embedded or stored.
pub open spec fn good_from(
    kept: Seq<KeptView>,
    embeds: spec_fn(Seq<char>) -> bool,
    stores: spec_fn(Seq<char>) -> bool,
    i: int,
) -> Seq<StoredEventView>
    decreases kept.len() - i,
{
    if i >= kept.len() {
        Seq::empty()
    } else {
        let text = event_text(kept[i].row);
        let rest = good_from(kept, embeds, stores, i + 1);
        if embeds(text) && stores(text) {
            seq![
                StoredEventView {
                    source: kept[i].row.sqlite_message_id,
                    text,
                    embedded: text,
                    category: kept[i].category,
                    score: kept[i].score,
                },
            ] + rest
        } else {
            rest
        }
    }
}

proof fn lemma_stores_at_once(
    run: ScoreRunView,
    i: int,
    embeds: spec_fn(Seq<char>) -> bool,
    stores: spec_fn(Seq<char>) -> bool,
    e: ErrorView,
    fuel: nat,
)
    requires
        0 <= i < run.kept.len(),
        fuel > run.kept.len() - i,
        forall|k: int|
            0 <= k < run.kept.len() ==> embeds(#[trigger] kept_texts(run.kept)[k]),
    ensures
        ({
            let next = run.store(ScorePhase::Storing, i, i);
            stored_by(next.0, next.1, kept_texts(run.kept), embeds, stores, e, fuel) == good_from(
                run.kept,
                embeds,
                stores,
                i,
            )
        }),
    decreases run.kept.len() - i,
{
    let next = run.store(ScorePhase::Storing, i, i).0;
    assert(embeds(kept_texts(run.kept)[i]));
    if i + 1 < run.kept.len() {
        lemma_stores_at_once(next, i + 1, embeds, stores, e, (fuel - 1) as nat);
    } else {
        reveal_with_fuel(stored_by, 2);
        reveal_with_fuel(good_from, 2);
    }
}

proof fn lemma_stores_one_by_one(
    run: ScoreRunView,
    i: int,
    texts: Seq<Seq<char>>,
    embeds: spec_fn(Seq<char>) -> bool,
    stores: spec_fn(Seq<char>) -> bool,
    e: ErrorView,
    fuel: nat,
)
    requires
        0 <= i <= run.kept.len(),
        fuel > 2 * (run.kept.len() - i),
    ensures
        ({
            let next = run.embed_one(i);
            stored_by(next.0, next.1, texts, embeds, stores, e, fuel) == good_from(
                run.kept,
                embeds,
                stores,
                i,
            )
        }),
    decreases run.kept.len() - i,
{
    if i < run.kept.len() {
        let text = event_text(run.kept[i].row);
        let one = seq![text];
        let asked = run.embed_one(i).0;
        assert(one[0] == text);
        if embeds(text) {
            assert(forall|k: int| 0 <= k < one.len() ==> embeds(#[trigger] one[k]));
            let stored = asked.on(ScoreEventView::Vectors(1)).0;
            assert(stored.phase is StoringOne);
            lemma_stores_one_by_one(stored, i + 1, one, embeds, stores, e, (fuel - 2) as nat);
            reveal_with_fuel(stored_by, 2);
        } else {
            assert(!(forall|k: int| 0 <= k < one.len() ==> embeds(#[trigger] one[k])));
            lemma_stores_one_by_one(asked, i + 1, one, embeds, stores, e, (fuel - 1) as nat);
        }
    }
}

/// Whatever cannot be embedded or stored is skipped by itself: all else that is kept
/// is stored, in its order, each with the vector of its own text.
pub proof fn law_only_failing_ones_are_skipped(
    run: ScoreRunView,
    entries: Seq<ScoredEntryView>,
    embeds: spec_fn(Seq<char>) -> bool,
    stores: spec_fn(Seq<char>) -> bool,
    e: ErrorView,
    fuel: nat,
)
    requires
        fuel > 2 * kept_of(entries, run.candidates, run.score_min).len() + 1,
    ensures
        ({
            let next = run.select(entries);
            stored_by(next.0, next.1, Seq::empty(), embeds, stores, e, fuel) == good_from(
                kept_of(entries, run.candidates, run.score_min),
                embeds,
                stores,
                0,
            )
        }),
{
    let kept = kept_of(entries, run.candidates, run.score_min);
    if kept.len() > 0 {
        let waiting = run.select(entries).0;
        let texts = kept_texts(kept);
        let left = (fuel - 1) as nat;
        if forall|i: int| 0 <= i < texts.len() ==> embeds(#[trigger] texts[i]) {
            lemma_stores_at_once(waiting, 0, embeds, stores, e, left);
        } else {
            lemma_stores_one_by_one(waiting, 0, texts, embeds, stores, e, left);
        }
    }
}

/// Where every model fails, the buffer ends up with the candidates that could be read,
/// in their old order, and behind them with all that came in meanwhile. Nothing is
/// stored, and the scoring ends well.
pub proof fn law_failed_scoring_keeps_the_buffer(
    s: Server,
    chat_id: i64,
    run: ScoreRunView,
    d: Seq<Option<CandidateRowView>>,
    looked: ScoreEventView,
    answers: Seq<ScoreEventView>,
    newer: Seq<Seq<char>>,
)
    requires
        run.phase is Popping,
        s.lists(candidates_key(chat_id)),
        d.len() == s.list(candidates_key(chat_id)).len(),
        readable(d).len() > 0,
        answers.len() == run.models.len(),
        forall|i: int| 0 <= i < answers.len() ==> useless(#[trigger] answers[i]),
        d.len() + newer.len() < i64::MAX,
    ensures
        ({
            let key = candidates_key(chat_id);
            let popped = pop_candidates_call(s, chat_id)->0;
            let texts = popped.1->Ok_0;
            let after = fed(
                run.on(ScoreEventView::Popped(texts)).0,
                seq![ScoreEventView::Decoded(d), looked] + answers,
            );
            let back = readable_raw(s.list(key), d);
            let put = requeue_call(push_calls(popped.0, chat_id, newer), chat_id, back)->0;
            &&& popped.1 is Ok
            &&& run.on(ScoreEventView::Popped(texts)).1 == ScoreActionView::Decode(s.list(key))
            &&& forall|i: int| 0 <= i < after.1.len() ==> !(#[trigger] after.1[i] is Store)
            &&& after.1.last() == ScoreActionView::Requeue(back)
            &&& put.1 is Ok
            &&& put.0.list(key) == back + newer
            &&& after.0.on(ScoreEventView::Did).1 == ScoreActionView::Done
        }),
{
    let texts = s.list(candidates_key(chat_id));
    let back = readable_raw(texts, d);
    law_put_back_were_taken_out(texts, d);
    lemma_readable_fit(d);
    law_pop_then_requeue(s, chat_id, newer, back);
    lemma_useless_answers(run.on(ScoreEventView::Popped(texts)).0, d, looked, answers);
}

/// A batch whose vectors are not as many as its texts is dropped: nothing is stored.
pub proof fn law_wrong_number_of_vectors_drops_the_batch(run: ScoreRunView, n: int)
    requires
        run.phase is Embedding,
        n != run.kept.len(),
    ensures
        run.on(ScoreEventView::Vectors(n)).1 == ScoreActionView::Done,
        run.on(ScoreEventView::Vectors(n)).0.phase is Ended,
{
}

/// While a model is left, a failure leads to that model, with the same prompt.
pub proof fn law_every_model_is_asked(run: ScoreRunView, event: ScoreEventView)
    requires
        run.phase is Asking,
        0 <= run.tried < run.models.len(),
        event matches ScoreEventView::Answered(t) ==> trim_seq(t).len() == 0,
    ensures
        run.on(event).1 == (ScoreActionView::Ask {
            model: run.models[run.tried],
            messages: two_messages(SCORE_SYSTEM_PROMPT@, run.prompt),
        }),
        run.on(event).0.tried == run.tried + 1,
{
}

} // verus!
