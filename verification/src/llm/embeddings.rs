//! The embedding client. Vectors are opaque: the library hands them on and never
//! looks inside.
use vstd::prelude::*;

use crate::error::{joined, result_view, Error, ErrorView};
use crate::llm::client::{
    auth_headers, backoff, backoff_ms, bad_key, header_safe, is_retryable, key_headers, refused,
    refused_error, retryable_status, unsent, unsent_error, Header,
};
use crate::text::{copy_texts, drop_trailing, ellipsize, ellipsized, trim_end_matches};

verus! {

/// The body of a request.
pub struct EmbedRequest {
    pub model: String,
    pub input: Vec<String>,
}

/// How one attempt went.
pub enum EmbedAttempt<V> {
    /// A status of success came with vectors.
    Embedded(Vec<V>),
    /// A status of success came with a body that could not be read.
    Unreadable(String),
    /// Another status came.
    Refused { status: u16, status_text: String, body: String },
    /// The request did not get through; `transient` where it timed out or could not
    /// connect.
    NotSent { transient: bool, message: String },
}

/// What an attempt leads to.
pub enum EmbedVerdict<V> {
    Done(Vec<V>),
    Retry { delay_ms: u64 },
    Fail(Error),
}

/// The attempt `attempt` is followed by another one.
pub open spec fn embed_retries<V>(max_retries: u32, attempt: u32, outcome: EmbedAttempt<V>) -> bool {
    attempt < max_retries && match outcome {
        EmbedAttempt::Refused { status, .. } => is_retryable(status),
        EmbedAttempt::NotSent { transient, .. } => transient,
        _ => false,
    }
}

/// The error that the attempt `attempt` ends in.
pub open spec fn embed_error<V>(attempt: u32, outcome: EmbedAttempt<V>) -> ErrorView {
    match outcome {
        EmbedAttempt::Embedded(_) => ErrorView::OpenRouter(Seq::empty()),
        EmbedAttempt::Unreadable(e) => ErrorView::OpenRouter("parse embedding body: "@ + e@),
        EmbedAttempt::Refused { status_text, body, .. } => refused(
            "embedding status "@,
            status_text@,
            attempt,
            ellipsized(body@, 500),
        ),
        EmbedAttempt::NotSent { message, .. } => unsent(
            "embedding send after "@,
            attempt,
            message@,
        ),
    }
}

/// The client's settings.
pub struct EmbeddingClient {
    pub base_url: String,
    pub api_key: String,
    pub model: String,
    pub timeout_sec: u64,
    pub max_retries: u32,
}

impl EmbeddingClient {
    /// A client for the service at `base_url`.
    pub fn new(
        base_url: String,
        api_key: String,
        model: String,
        timeout_sec: u64,
        max_retries: u32,
    ) -> (r: EmbeddingClient)
        ensures
            r == (EmbeddingClient { base_url, api_key, model, timeout_sec, max_retries }),
    {
        EmbeddingClient { base_url, api_key, model, timeout_sec, max_retries }
    }

    /// Where vectors are asked for.
    pub fn url(&self) -> (r: String)
        ensures
            r@ == drop_trailing(self.base_url@, '/') + "/embeddings"@,
    {
        let mut s = trim_end_matches(self.base_url.as_str(), '/');
        s.append("/embeddings");
        s
    }

    /// The headers of every request, or an error where no header can hold the key.
    pub fn headers(&self) -> (r: Result<Vec<Header>, Error>)
        ensures
            result_view(r) == (if header_safe("Bearer "@ + self.api_key@) {
                Ok::<Seq<(Seq<char>, Seq<char>)>, ErrorView>(auth_headers(self.api_key@))
            } else {
                Err(bad_key())
            }),
    {
        key_headers(self.api_key.as_str())
    }

    /// The request for the vectors of `texts`, in their order; none where there are no
    /// texts, and then no vectors either.
    pub fn request(&self, texts: &Vec<String>) -> (r: Option<EmbedRequest>)
        ensures
            r is None <==> texts@.len() == 0,
            r matches Some(q) ==> q.model == self.model && q.input@ == texts@,
    {
        if texts.len() == 0 {
            None
        } else {
            Some(EmbedRequest { model: self.model.clone(), input: copy_texts(texts) })
        }
    }

    /// Judges an attempt, counted from 0. The status 429 or 5xx, a timeout or a failed
    /// connection leads to another attempt while fewer than `max_retries` have been
    /// repeated.
    pub fn embed<V>(&self, attempt: u32, outcome: EmbedAttempt<V>) -> (r: EmbedVerdict<V>)
        ensures
            match r {
                EmbedVerdict::Done(v) => outcome == EmbedAttempt::Embedded(v),
                EmbedVerdict::Retry { delay_ms } => embed_retries(
                    self.max_retries,
                    attempt,
                    outcome,
                ) && delay_ms == backoff(attempt),
                EmbedVerdict::Fail(e) => !(outcome is Embedded) && !embed_retries(
                    self.max_retries,
                    attempt,
                    outcome,
                ) && e.deep_view() == embed_error(attempt, outcome),
            },
    {
        match outcome {
            EmbedAttempt::Embedded(v) => EmbedVerdict::Done(v),
            EmbedAttempt::Unreadable(e) => EmbedVerdict::Fail(
                Error::OpenRouter(joined("parse embedding body: ", e.as_str())),
            ),
            EmbedAttempt::Refused { status, status_text, body } => {
                if retryable_status(status) && attempt < self.max_retries {
                    return EmbedVerdict::Retry { delay_ms: backoff_ms(attempt) };
                }
                let shown = ellipsize(body.as_str(), 500);
                EmbedVerdict::Fail(
                    refused_error(
                        "embedding status ",
                        status_text.as_str(),
                        attempt,
                        shown.as_str(),
                    ),
                )
            },
            EmbedAttempt::NotSent { transient, message } => {
                if transient && attempt < self.max_retries {
                    return EmbedVerdict::Retry { delay_ms: backoff_ms(attempt) };
                }
                EmbedVerdict::Fail(unsent_error("embedding send after ", attempt, message.as_str()))
            },
        }
    }

    /// The vector of a single text: the first that came, or an error where none did.
    pub fn embed_single<V>(vectors: Vec<V>) -> (r: Result<V, Error>)
        ensures
            match r {
                Ok(v) => vectors@.len() > 0 && v == vectors@[0],
                Err(e) => vectors@.len() == 0 && e.deep_view() == ErrorView::OpenRouter(
                    "embedding returned empty data array"@,
                ),
            },
    {
        if vectors.len() == 0 {
            return Err(Error::OpenRouter("embedding returned empty data array".to_owned()));
        }
        let mut all = vectors;
        let first = all.swap_remove(0);
        Ok(first)
    }
}

/// A call never makes more than one attempt and `max_retries` repetitions.
pub proof fn law_embed_attempts_are_bounded<V>(
    max_retries: u32,
    attempt: u32,
    outcome: EmbedAttempt<V>,
)
    requires
        attempt >= max_retries,
    ensures
        !embed_retries(max_retries, attempt, outcome),
{
}

/// The attempt came to nothing that another one could not mend.
pub open spec fn embed_asks_again<V>(outcome: EmbedAttempt<V>) -> bool {
    match outcome {
        EmbedAttempt::Refused { status, .. } => is_retryable(status),
        EmbedAttempt::NotSent { transient, .. } => transient,
        _ => false,
    }
}

/// A call from attempt `attempt` on, where attempt `k` goes like `outcomes(k)`: the
/// pauses between its requests, and its last attempt.
pub open spec fn embed_from<V>(
    max_retries: u32,
    outcomes: spec_fn(u32) -> EmbedAttempt<V>,
    attempt: u32,
) -> (Seq<u64>, u32)
    decreases max_retries - attempt,
{
    if embed_retries(max_retries, attempt, outcomes(attempt)) {
        let rest = embed_from(max_retries, outcomes, (attempt + 1) as u32);
        (seq![backoff(attempt)] + rest.0, rest.1)
    } else {
        (Seq::empty(), attempt)
    }
}

/// A call repeats its request while attempts ask for another one and `max_retries` is
/// not used up. With `n` attempts that are repeated it makes `n + 1` requests and pauses
/// `backoff(0)` to `backoff(n - 1)` between them.
pub proof fn law_embed_call_takes_its_course<V>(
    max_retries: u32,
    outcomes: spec_fn(u32) -> EmbedAttempt<V>,
    n: u32,
)
    requires
        n <= max_retries,
        forall|k: u32| k < n ==> embed_asks_again(#[trigger] outcomes(k)),
        n == max_retries || !embed_asks_again(outcomes(n)),
    ensures
        embed_from(max_retries, outcomes, 0) == (
            Seq::new(n as nat, |k: int| backoff(k as u32)),
            n,
        ),
{
    lemma_embed_from(max_retries, outcomes, 0, n);
}

/// Where every attempt asks for another one, a call makes exactly `max_retries + 1`
/// requests, with the pauses `backoff(0)` to `backoff(max_retries - 1)` between them.
pub proof fn law_failing_embed_call_uses_all_retries<V>(
    max_retries: u32,
    outcomes: spec_fn(u32) -> EmbedAttempt<V>,
)
    requires
        forall|k: u32| k <= max_retries ==> embed_asks_again(#[trigger] outcomes(k)),
    ensures
        embed_from(max_retries, outcomes, 0) == (
            Seq::new(max_retries as nat, |k: int| backoff(k as u32)),
            max_retries,
        ),
{
    law_embed_call_takes_its_course(max_retries, outcomes, max_retries);
}

proof fn lemma_embed_from<V>(
    max_retries: u32,
    outcomes: spec_fn(u32) -> EmbedAttempt<V>,
    attempt: u32,
    n: u32,
)
    requires
        attempt <= n <= max_retries,
        forall|k: u32| k < n ==> embed_asks_again(#[trigger] outcomes(k)),
        n == max_retries || !embed_asks_again(outcomes(n)),
    ensures
        embed_from(max_retries, outcomes, attempt) == (
            Seq::new((n - attempt) as nat, |k: int| backoff((attempt + k) as u32)),
            n,
        ),
    decreases n - attempt,
{
    let pauses = Seq::new((n - attempt) as nat, |k: int| backoff((attempt + k) as u32));
    if attempt < n {
        assert(embed_asks_again(outcomes(attempt)));
        lemma_embed_from(max_retries, outcomes, (attempt + 1) as u32, n);
        let rest = Seq::new(
            (n - (attempt + 1)) as nat,
            |k: int| backoff((attempt + 1 + k) as u32),
        );
        assert(embed_from(max_retries, outcomes, (attempt + 1) as u32).0 =~= rest);
        assert(seq![backoff(attempt)] + rest =~= pauses);
    } else {
        assert(pauses =~= Seq::empty());
    }
}

} // verus!
