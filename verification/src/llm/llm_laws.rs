//! What prompts and calls of models promise as a whole.
use vstd::prelude::*;

use crate::bot::reply_laws::{
    law_lists_are_whole, law_people_are_whole, listed, people_listed, said_if,
};
use crate::error::ErrorView;
use crate::llm::client::{
    auth_headers, bad_key, header_safe, judged, shortened, stream_fault, text_message, AttemptView, ContentBlockView,
    MessageContentView, StreamFault,
};
use crate::llm::embeddings::{embed_error, embed_retries, EmbedAttempt};
use crate::llm::perception::{
    describe_next, model_order, transcribed, with_text, AnswerView, DescribeStepView,
};
use crate::llm::prompt_builder::{
    assembled, style_text, style_texts, thread, window_line, Layers,
};
use crate::llm::prompts::persona::CORE_PERSONA;
use crate::llm::prompts::system::{
    shot_text, shot_texts, system_prompt, FewShotView, SYSTEM_PROMPT_BASE,
};
use crate::llm::stream::{data_in, left_over, line_end, line_text};
use crate::memory::working::WorkingMessageView;
use crate::text::{concat_all, decimal, ellipsized, replace_parts, replace_seq, trim_seq};

verus! {

/// The examples of style, one after the other.
pub open spec fn styles_listed(shots: Seq<FewShotView>) -> Seq<char>
    decreases shots.len(),
{
    if shots.len() == 0 {
        "[Примеры твоего стиля общения]:\n"@
    } else {
        styles_listed(shots.drop_last()) + "Контекст: "@ + shots.last().context
            + "\nТвой ответ: "@ + shots.last().reply + "\n\n"@
    }
}

proof fn lemma_styles_listed(shots: Seq<FewShotView>)
    ensures
        "[Примеры твоего стиля общения]:\n"@ + concat_all(style_texts(shots)) == styles_listed(
            shots,
        ),
    decreases shots.len(),
{
    let head = "[Примеры твоего стиля общения]:\n"@;
    if shots.len() == 0 {
        assert(head + concat_all(style_texts(shots)) =~= head);
    } else {
        lemma_styles_listed(shots.drop_last());
        let all = style_texts(shots);
        assert(all.drop_last() =~= style_texts(shots.drop_last()));
        assert(all.last() == style_text(shots.last()));
        assert(head + concat_all(all) =~= styles_listed(shots));
    }
}

/// A window entry as the layered prompt shows it: the bot's own lines are marked, the
/// others bear a name, and what the media show stands behind the words.
pub open spec fn line_shown(w: WorkingMessageView, bot_id: i64) -> Seq<char> {
    let who = if w.user_id == bot_id {
        "[я]"@
    } else {
        "@"@ + (match w.username {
            Some(n) => n,
            None => "unknown"@,
        })
    };
    let words = who + ": "@ + w.text;
    match w.media_desc {
        Some(d) => words + " [медиа: "@ + d + "]"@,
        None => words,
    }
}

proof fn lemma_line_shown(w: WorkingMessageView, bot_id: i64)
    ensures
        window_line(w, bot_id) == line_shown(w, bot_id),
{
    reveal_strlit("[я]: ");
    reveal_strlit("[я]");
    reveal_strlit(": ");
    assert("[я]: "@ =~= "[я]"@ + ": "@);
    assert(window_line(w, bot_id) =~= line_shown(w, bot_id));
}

/// The layered prompt shows all that its layers are made of: the character, the portrait,
/// the moments, the summaries, the people, the examples of style and the thread, each
/// whole and in its place; a layer with nothing to say is left out.
pub proof fn law_every_layer_is_shown(l: Layers)
    ensures
        assembled(l) == seq![
            text_message("system"@, CORE_PERSONA@),
            text_message("system"@, "[ДНК этого чата]:\n"@ + l.dna@),
        ] + said_if(
            l.events@.len() > 0,
            listed("[Релевантные моменты из прошлого]:\n"@, l.events.deep_view()),
        ) + said_if(
            l.summaries@.len() > 0,
            listed("[Контекст из истории чата]:\n"@, l.summaries.deep_view()),
        ) + said_if(
            l.people@.len() > 0,
            people_listed("[Факты об участниках]:\n"@, l.people.deep_view()),
        ) + said_if(l.shots@.len() > 0, styles_listed(l.shots.deep_view())) + l.window.deep_view()
            .map_values(
            |w: WorkingMessageView| text_message("user"@, line_shown(w, l.bot_id)),
        ),
{
    law_lists_are_whole("[Релевантные моменты из прошлого]:\n"@, l.events.deep_view());
    law_lists_are_whole("[Контекст из истории чата]:\n"@, l.summaries.deep_view());
    law_people_are_whole("[Факты об участниках]:\n"@, l.people.deep_view());
    lemma_styles_listed(l.shots.deep_view());
    let window = l.window.deep_view();
    let shown = window.map_values(
        |w: WorkingMessageView| text_message("user"@, line_shown(w, l.bot_id)),
    );
    assert(thread(window, l.bot_id) =~= shown) by {
        assert forall|i: int| 0 <= i < window.len() implies #[trigger] thread(
            window,
            l.bot_id,
        )[i] == shown[i] by {
            lemma_line_shown(window[i], l.bot_id);
        }
    }
    assert(assembled(l) =~= seq![
        text_message("system"@, CORE_PERSONA@),
        text_message("system"@, "[ДНК этого чата]:\n"@ + l.dna@),
    ] + said_if(
        l.events@.len() > 0,
        listed("[Релевантные моменты из прошлого]:\n"@, l.events.deep_view()),
    ) + said_if(
        l.summaries@.len() > 0,
        listed("[Контекст из истории чата]:\n"@, l.summaries.deep_view()),
    ) + said_if(
        l.people@.len() > 0,
        people_listed("[Факты об участниках]:\n"@, l.people.deep_view()),
    ) + said_if(l.shots@.len() > 0, styles_listed(l.shots.deep_view())) + shown);
}

/// The system prompt up to the end of its examples.
pub open spec fn examples_listed(shots: Seq<FewShotView>) -> Seq<char>
    decreases shots.len(),
{
    if shots.len() == 0 {
        SYSTEM_PROMPT_BASE@ + "\n\nПРИМЕРЫ ТВОИХ ОТВЕТОВ:\n"@
    } else {
        examples_listed(shots.drop_last()) + "\nПример "@ + decimal(shots.len() as int)
            + ":\n[Контекст]:\n"@ + shots.last().context + "\n[Твой ответ]:\n"@
            + shots.last().reply + "\n"@
    }
}

/// The system prompt shows every example, by number, with its context and its reply.
pub proof fn law_system_prompt_shows_every_example(shots: Seq<FewShotView>)
    ensures
        shots.len() == 0 ==> system_prompt(shots) == SYSTEM_PROMPT_BASE@,
        shots.len() > 0 ==> system_prompt(shots) == examples_listed(shots)
            + "\nИспользуй эти примеры как ориентир для своего стиля общения.\n"@,
{
    lemma_examples_listed(shots);
}

proof fn lemma_examples_listed(shots: Seq<FewShotView>)
    ensures
        SYSTEM_PROMPT_BASE@ + "\n\nПРИМЕРЫ ТВОИХ ОТВЕТОВ:\n"@ + concat_all(shot_texts(shots))
            == examples_listed(shots),
    decreases shots.len(),
{
    let head = SYSTEM_PROMPT_BASE@ + "\n\nПРИМЕРЫ ТВОИХ ОТВЕТОВ:\n"@;
    if shots.len() == 0 {
        assert(head + concat_all(shot_texts(shots)) =~= head);
    } else {
        lemma_examples_listed(shots.drop_last());
        let all = shot_texts(shots);
        assert(all.drop_last() =~= shot_texts(shots.drop_last()));
        assert(all.last() == shot_text(shots.len() - 1, shots.last()));
        assert(head + concat_all(all) =~= examples_listed(shots));
    }
}

/// Nothing came of asking a model for a description: it failed, or its answer is blank.
pub open spec fn no_description(answer: AnswerView) -> bool {
    answer matches AnswerView::Text(t) ==> trim_seq(t).len() == 0
}

/// The models are asked one after the other, the main one first and then every fallback
/// in order, until one of them gives a description; that is what comes out, and where
/// none does the last error is.
pub proof fn law_every_vision_model_has_its_turn(
    primary: Seq<char>,
    fallbacks: Seq<Seq<char>>,
    tried: int,
    last: AnswerView,
)
    requires
        1 <= tried <= fallbacks.len() + 1,
    ensures
        ({
            let models = model_order(primary, fallbacks);
            &&& describe_next(models, 0, None) == DescribeStepView::Ask(primary)
            &&& no_description(last) && tried <= fallbacks.len() ==> describe_next(
                models,
                tried,
                Some(last),
            ) == DescribeStepView::Ask(fallbacks[tried - 1])
            &&& no_description(last) && tried == fallbacks.len() + 1 ==> describe_next(
                models,
                tried,
                Some(last),
            ) == DescribeStepView::Fail(
                match last {
                    AnswerView::Failed(e) => e,
                    AnswerView::Text(_) => ErrorView::OpenRouter("empty content"@),
                },
            )
            &&& !no_description(last) ==> describe_next(
                models,
                tried,
                Some(last),
            ) == DescribeStepView::Done(
                if trim_seq(last->Text_0).len() <= 800 {
                    trim_seq(last->Text_0)
                } else {
                    trim_seq(last->Text_0).take(800).push('…')
                },
            )
        }),
{
}

/// A voice message is what the model heard, but for white space at the ends and what is
/// too long; a blank answer and a failure are errors.
pub proof fn law_voice_is_what_was_heard(t: Seq<char>, e: ErrorView)
    ensures
        transcribed(AnswerView::Failed(e)) == Err::<Seq<char>, ErrorView>(e),
        trim_seq(t).len() == 0 ==> transcribed(AnswerView::Text(t)) is Err,
        0 < trim_seq(t).len() <= 800 ==> transcribed(AnswerView::Text(t)) == Ok::<
            Seq<char>,
            ErrorView,
        >(trim_seq(t)),
        trim_seq(t).len() > 800 ==> transcribed(AnswerView::Text(t)) == Ok::<
            Seq<char>,
            ErrorView,
        >(trim_seq(t).take(800).push('…')),
{
}

/// A text that is there and not blank.
pub open spec fn says_something(o: Option<Seq<char>>) -> bool {
    o is Some && trim_seq(o->0).len() > 0
}

/// What comes of a reply of success whose first choice says something: its text and its
/// reasoning, whichever is not blank, under the name of the model that was asked, with
/// the counts of tokens that came with it.
pub proof fn law_first_choice_is_the_answer(
    max_retries: u32,
    model: Seq<char>,
    attempt: u32,
    outcome: AttemptView,
)
    requires
        outcome is Replied,
        200 <= outcome->status < 300,
        trim_seq(outcome->body).len() > 0,
        outcome->parsed is Some,
        outcome->parsed->0.choices.len() > 0,
        says_something(outcome->parsed->0.choices[0].content) || says_something(
            outcome->parsed->0.choices[0].reasoning,
        ),
    ensures
        ({
            let p = outcome->parsed->0;
            let first = p.choices[0];
            &&& judged(max_retries, model, attempt, outcome) is Done
            &&& {
                let done = judged(max_retries, model, attempt, outcome)->Done_0;
                &&& done.model == model
                &&& done.latency_ms == outcome->latency_ms
                &&& says_something(first.content) ==> done.content == first.content->0
                &&& !says_something(first.content) ==> done.content.len() == 0
                &&& says_something(first.reasoning) ==> done.reasoning == first.reasoning
                &&& !says_something(first.reasoning) ==> done.reasoning is None
                &&& p.usage is Some ==> done.prompt_tokens == p.usage->0.prompt_tokens
                    && done.completion_tokens == p.usage->0.completion_tokens
                    && done.total_tokens == p.usage->0.total_tokens
                &&& p.usage is None ==> done.prompt_tokens == 0 && done.completion_tokens == 0
                    && done.total_tokens == 0
            }
        }),
{
}

/// Another attempt follows only a request that did not get through for the moment, a
/// reply of success that holds no answer, the status 429 or a status from 500 to 599, and
/// only while retries are left; a request that the service refuses is not repeated.
pub proof fn law_only_passing_trouble_is_retried(
    max_retries: u32,
    model: Seq<char>,
    attempt: u32,
    outcome: AttemptView,
)
    ensures
        judged(max_retries, model, attempt, outcome) is Retry ==> attempt < max_retries && (
        match outcome {
            AttemptView::NotSent { transient, .. } => transient,
            AttemptView::Replied { status, .. } => 200 <= status < 300 || status == 429 || 500
                <= status < 600,
        }),
        attempt < max_retries && outcome is Replied && (outcome->status == 429 || 500
            <= outcome->status < 600) ==> judged(max_retries, model, attempt, outcome) is Retry,
        attempt < max_retries && outcome is NotSent && outcome->transient ==> judged(
            max_retries,
            model,
            attempt,
            outcome,
        ) is Retry,
        outcome is Replied && 400 <= outcome->status < 500 && outcome->status != 429 ==> judged(
            max_retries,
            model,
            attempt,
            outcome,
        ) is Fail,
{
}

/// A line of an event stream: its data are what stands behind "data: ", a line without
/// that gives nothing, and the mark of the end ends the stream; the other lines are read
/// as if it were not there.
pub proof fn law_lines_give_their_data(line: Seq<u8>, rest: Seq<u8>)
    requires
        forall|i: int| 0 <= i < line.len() ==> #[trigger] line[i] != 10,
    ensures
        ({
            let text = line_text(line.push(10));
            let all = line.push(10) + rest;
            &&& text == "data: [DONE]"@ ==> data_in(all).len() == 0 && left_over(all) == rest
            &&& text != "data: [DONE]"@ ==> left_over(all) == left_over(rest)
            &&& text != "data: [DONE]"@ && text.len() >= 6 && text.take(6) == "data: "@
                ==> data_in(all) == seq![text.skip(6)] + data_in(rest)
            &&& text != "data: [DONE]"@ && !(text.len() >= 6 && text.take(6) == "data: "@)
                ==> data_in(all) == data_in(rest)
        }),
{
    reveal_strlit("data: ");
    let all = line.push(10) + rest;
    lemma_first_line(line, rest, 0);
    assert(all.take(line.len() as int + 1) =~= line.push(10));
    assert(all.skip(line.len() as int + 1) =~= rest);
    assert(Seq::<Seq<char>>::empty() + data_in(rest) =~= data_in(rest));
}

proof fn lemma_first_line(line: Seq<u8>, rest: Seq<u8>, from: int)
    requires
        0 <= from <= line.len(),
        forall|i: int| 0 <= i < line.len() ==> #[trigger] line[i] != 10,
    ensures
        line_end(line.push(10) + rest, from) == line.len(),
    decreases line.len() - from,
{
    let all = line.push(10) + rest;
    if from < line.len() {
        assert(all[from] == line[from]);
        lemma_first_line(line, rest, from + 1);
    } else {
        assert(all[from] == 10);
    }
}

/// A file is shown to the model together with what is asked of it, in one message of the
/// user.
pub proof fn law_files_come_with_their_question(text: Seq<char>, block: ContentBlockView)
    ensures
        ({
            let m = with_text(text, block);
            &&& m.role == "user"@
            &&& m.content == MessageContentView::Multipart(
                seq![ContentBlockView::Text { text }, block],
            )
        }),
{
}

/// Every request bears the key and says what its body is.
pub proof fn law_requests_bear_the_key(api_key: Seq<char>)
    ensures
        auth_headers(api_key).contains(("authorization"@, "Bearer "@ + api_key)),
        auth_headers(api_key).contains(("content-type"@, "application/json"@)),
{
    assert(auth_headers(api_key)[0] == ("authorization"@, "Bearer "@ + api_key));
    assert(auth_headers(api_key)[1] == ("content-type"@, "application/json"@));
}

/// The attempts that an error speaks of are those that were made.
pub proof fn law_errors_tell_the_attempts(
    max_retries: u32,
    model: Seq<char>,
    attempt: u32,
    outcome: AttemptView,
)
    ensures
        judged(max_retries, model, attempt, outcome) is Fail && outcome is NotSent ==> judged(
            max_retries,
            model,
            attempt,
            outcome,
        )->error == ErrorView::OpenRouter(
            "send after "@ + decimal(attempt + 1) + " attempt(s): "@ + outcome->message,
        ),
        judged(max_retries, model, attempt, outcome) is Fail && outcome is Replied && !(200
            <= outcome->status < 300) ==> judged(max_retries, model, attempt, outcome)->error
            == ErrorView::OpenRouter(
            "status "@ + outcome->status_text + " after "@ + decimal(attempt + 1)
                + " attempt(s): "@ + shortened(outcome->body, 500),
        ),
{
}

/// A text is embedded again only where the request did not get through for the moment or
/// was refused with the status 429 or one from 500 to 599, and only while retries are
/// left; vectors that came are not asked for twice.
pub proof fn law_only_passing_trouble_is_embedded_again<V>(
    max_retries: u32,
    attempt: u32,
    outcome: EmbedAttempt<V>,
)
    ensures
        embed_retries(max_retries, attempt, outcome) ==> attempt < max_retries,
        outcome is Embedded || outcome is Unreadable ==> !embed_retries(
            max_retries,
            attempt,
            outcome,
        ),
        outcome is NotSent && attempt < max_retries ==> embed_retries(
            max_retries,
            attempt,
            outcome,
        ) == outcome->transient,
        outcome is Refused && attempt < max_retries ==> embed_retries(
            max_retries,
            attempt,
            outcome,
        ) == (outcome->status == 429 || (outcome->status >= 500 && outcome->status <= 599)),
{
}

/// The error of a text that was not embedded tells what came back and how many attempts
/// were made.
pub proof fn law_embedding_errors_tell_the_attempts<V>(attempt: u32, outcome: EmbedAttempt<V>)
    ensures
        outcome is Unreadable ==> embed_error(attempt, outcome) == ErrorView::OpenRouter(
            "parse embedding body: "@ + outcome->Unreadable_0@,
        ),
        outcome is Refused ==> embed_error(attempt, outcome) == ErrorView::OpenRouter(
            "embedding status "@ + outcome->status_text@ + " after "@ + decimal(attempt + 1)
                + " attempt(s): "@ + ellipsized(outcome->body@, 500),
        ),
        outcome is NotSent ==> embed_error(attempt, outcome) == ErrorView::OpenRouter(
            "embedding send after "@ + decimal(attempt + 1) + " attempt(s): "@
                + outcome->message@,
        ),
{
}

/// A stream that could not be opened or read tells why.
pub proof fn law_stream_faults_are_told(e: String, status: String)
    ensures
        stream_fault(StreamFault::NotSent(e)) == ErrorView::OpenRouter(
            "send stream request: "@ + e@,
        ),
        stream_fault(StreamFault::Refused { status_text: status, body: e })
            == ErrorView::OpenRouter("stream error "@ + status@ + ": "@ + e@),
        stream_fault(StreamFault::Broken(e)) == ErrorView::OpenRouter(
            "stream read error: "@ + e@,
        ),
{
}

/// A key of visible ASCII characters fits in a header, and one with a line break does not.
pub proof fn law_visible_keys_fit(key: Seq<char>)
    ensures
        (forall|i: int| 0 <= i < key.len() ==> 32 <= (#[trigger] key[i]) as u32 <= 126)
            ==> header_safe(key),
        key.contains('\n') ==> !header_safe(key),
        bad_key() == ErrorView::OpenRouter("auth header: failed to parse header value"@),
{
    if key.contains('\n') {
        let i = choose|i: int| 0 <= i < key.len() && key[i] == '\n';
        assert(key[i] as u32 == 10);
    }
    reveal_strlit("auth header: ");
    reveal_strlit("failed to parse header value");
    reveal_strlit("auth header: failed to parse header value");
    assert("auth header: "@ + "failed to parse header value"@
        =~= "auth header: failed to parse header value"@);
}

/// What a picture or a voice message comes to where nothing usable was answered.
pub proof fn law_nothing_said_is_an_error(models: Seq<Seq<char>>, t: Seq<char>)
    requires
        trim_seq(t).len() == 0,
    ensures
        describe_next(Seq::empty(), 0, None) == DescribeStepView::Fail(
            ErrorView::OpenRouter("no vision models configured"@),
        ),
        describe_next(models, models.len() as int, Some(AnswerView::Text(t)))
            == DescribeStepView::Fail(ErrorView::OpenRouter("empty content"@)),
        transcribed(AnswerView::Text(t)) == Err::<Seq<char>, _>(
            ErrorView::OpenRouter("voice transcription empty"@),
        ),
{
}

proof fn lemma_nothing_to_replace(s: Seq<char>, from: char, to: Seq<char>)
    requires
        !s.contains(from),
    ensures
        replace_seq(s, from, to) == s,
    decreases s.len(),
{
    let parts = replace_parts(s, from, to);
    if s.len() > 0 {
        assert(s.last() == s[s.len() - 1]);
        assert(s.contains(s[s.len() - 1]));
        assert forall|i: int| 0 <= i < s.drop_last().len() implies s.drop_last()[i] != from by {
            assert(s.contains(s[i]));
        }
        lemma_nothing_to_replace(s.drop_last(), from, to);
        assert(parts.drop_last() =~= replace_parts(s.drop_last(), from, to));
        assert(s =~= s.drop_last() + seq![s.last()]);
    }
}

/// A body of one line is told as it stands where it is short, and its beginning where it
/// is not.
pub proof fn law_a_line_is_told_as_it_stands(s: Seq<char>, n: int)
    requires
        !s.contains('\n'),
        !s.contains('\r'),
    ensures
        shortened(s, n) == ellipsized(s, n),
{
    lemma_nothing_to_replace(s, '\n', " "@);
    lemma_nothing_to_replace(s, '\r', ""@);
}

/// Line breaks in a body become spaces, and what goes with them is left out.
pub proof fn law_line_breaks_become_spaces(a: Seq<char>, b: Seq<char>, n: int)
    requires
        !a.contains('\n'),
        !a.contains('\r'),
        !b.contains('\n'),
        !b.contains('\r'),
    ensures
        shortened(a + seq!['\r', '\n'] + b, n) == ellipsized(a + seq![' '] + b, n),
        shortened(a + seq!['\n'] + b, n) == ellipsized(a + seq![' '] + b, n),
{
    reveal_strlit(" ");
    reveal_strlit("");
    lemma_nothing_to_replace(a, '\n', " "@);
    lemma_nothing_to_replace(b, '\n', " "@);
    lemma_nothing_to_replace(a, '\r', ""@);
    let sp = a + seq![' '] + b;
    assert forall|i: int| 0 <= i < sp.len() implies sp[i] != '\r' by {
        if i < a.len() {
            assert(a.contains(a[i]));
        } else if i > a.len() {
            assert(b.contains(b[i - a.len() - 1]));
        }
    }
    lemma_nothing_to_replace(sp, '\r', ""@);
    lemma_one_replaced(a, b, '\n', " "@);
    assert(a + " "@ + b =~= sp);
    let ar = a + seq!['\r'];
    assert forall|i: int| 0 <= i < ar.len() implies ar[i] != '\n' by {
        if i < a.len() {
            assert(a.contains(a[i]));
        }
    }
    assert(a + seq!['\r', '\n'] + b =~= ar + seq!['\n'] + b);
    lemma_one_replaced(ar, b, '\n', " "@);
    let tail = seq![' '] + b;
    assert forall|i: int| 0 <= i < tail.len() implies tail[i] != '\r' by {
        if i > 0 {
            assert(b.contains(b[i - 1]));
        }
    }
    assert(ar + " "@ + b =~= a + seq!['\r'] + tail);
    lemma_one_replaced(a, tail, '\r', ""@);
    assert(a + ""@ + tail =~= sp);
}

proof fn lemma_one_replaced(a: Seq<char>, b: Seq<char>, from: char, to: Seq<char>)
    requires
        !a.contains(from),
        !b.contains(from),
    ensures
        replace_seq(a + seq![from] + b, from, to) == a + to + b,
    decreases b.len(),
{
    let s = a + seq![from] + b;
    let parts = replace_parts(s, from, to);
    if b.len() == 0 {
        lemma_nothing_to_replace(a, from, to);
        assert(parts.drop_last() =~= replace_parts(a, from, to));
        assert(a + to + b =~= a + to);
    } else {
        let less = b.drop_last();
        assert(b.contains(b[b.len() - 1]));
        assert forall|i: int| 0 <= i < less.len() implies less[i] != from by {
            assert(b.contains(b[i]));
        }
        lemma_one_replaced(a, less, from, to);
        assert(parts.drop_last() =~= replace_parts(a + seq![from] + less, from, to));
        assert(s.last() == b.last());
        assert(parts.last() == seq![b.last()]);
        assert(a + to + b =~= a + to + less + seq![b.last()]);
    }
}

} // verus!
