//! The library's errors.
use vstd::prelude::*;

verus! {

/// What went wrong, by the part it went wrong in. The text is what that part
/// reported.
pub enum Error {
    Sqlite(String),
    Migrate(String),
    Qdrant(String),
    Redis(String),
    OpenRouter(String),
    Telegram(String),
    Config(String),
    Io(String),
    Env(String),
    Other(String),
}

/// An `Error` as a mathematical value.
pub enum ErrorView {
    Sqlite(Seq<char>),
    Migrate(Seq<char>),
    Qdrant(Seq<char>),
    Redis(Seq<char>),
    OpenRouter(Seq<char>),
    Telegram(Seq<char>),
    Config(Seq<char>),
    Io(Seq<char>),
    Env(Seq<char>),
    Other(Seq<char>),
}

impl DeepView for Error {
    type V = ErrorView;

    open spec fn deep_view(&self) -> ErrorView {
        match self {
            Error::Sqlite(t) => ErrorView::Sqlite(t@),
            Error::Migrate(t) => ErrorView::Migrate(t@),
            Error::Qdrant(t) => ErrorView::Qdrant(t@),
            Error::Redis(t) => ErrorView::Redis(t@),
            Error::OpenRouter(t) => ErrorView::OpenRouter(t@),
            Error::Telegram(t) => ErrorView::Telegram(t@),
            Error::Config(t) => ErrorView::Config(t@),
            Error::Io(t) => ErrorView::Io(t@),
            Error::Env(t) => ErrorView::Env(t@),
            Error::Other(t) => ErrorView::Other(t@),
        }
    }
}

/// A result with both sides as mathematical values.
pub open spec fn result_view<T: DeepView>(r: Result<T, Error>) -> Result<T::V, ErrorView> {
    match r {
        Ok(v) => Ok(v.deep_view()),
        Err(e) => Err(e.deep_view()),
    }
}

impl ErrorView {
    /// The message shown for the error.
    pub open spec fn message(self) -> Seq<char> {
        match self {
            ErrorView::Sqlite(t) => "sqlite error: "@ + t,
            ErrorView::Migrate(t) => "sqlite migration error: "@ + t,
            ErrorView::Qdrant(t) => "qdrant error: "@ + t,
            ErrorView::Redis(t) => "redis error: "@ + t,
            ErrorView::OpenRouter(t) => "openrouter error: "@ + t,
            ErrorView::Telegram(t) => "telegram error: "@ + t,
            ErrorView::Config(t) => "config error: "@ + t,
            ErrorView::Io(t) => "io error: "@ + t,
            ErrorView::Env(t) => "env error: "@ + t,
            ErrorView::Other(t) => t,
        }
    }
}

/// `a` followed by `b`.
pub fn joined(a: &str, b: &str) -> (r: String)
    ensures
        r@ == a@ + b@,
{
    let mut s = a.to_owned();
    s.append(b);
    s
}

impl Error {
    /// A copy of the error.
    pub fn copy(&self) -> (r: Error)
        ensures
            r == *self,
    {
        match self {
            Error::Sqlite(t) => Error::Sqlite(t.clone()),
            Error::Migrate(t) => Error::Migrate(t.clone()),
            Error::Qdrant(t) => Error::Qdrant(t.clone()),
            Error::Redis(t) => Error::Redis(t.clone()),
            Error::OpenRouter(t) => Error::OpenRouter(t.clone()),
            Error::Telegram(t) => Error::Telegram(t.clone()),
            Error::Config(t) => Error::Config(t.clone()),
            Error::Io(t) => Error::Io(t.clone()),
            Error::Env(t) => Error::Env(t.clone()),
            Error::Other(t) => Error::Other(t.clone()),
        }
    }

    /// The message shown for the error.
    pub fn message(&self) -> (r: String)
        ensures
            r@ == self.deep_view().message(),
    {
        match self {
            Error::Sqlite(t) => joined("sqlite error: ", t.as_str()),
            Error::Migrate(t) => joined("sqlite migration error: ", t.as_str()),
            Error::Qdrant(t) => joined("qdrant error: ", t.as_str()),
            Error::Redis(t) => joined("redis error: ", t.as_str()),
            Error::OpenRouter(t) => joined("openrouter error: ", t.as_str()),
            Error::Telegram(t) => joined("telegram error: ", t.as_str()),
            Error::Config(t) => joined("config error: ", t.as_str()),
            Error::Io(t) => joined("io error: ", t.as_str()),
            Error::Env(t) => joined("env error: ", t.as_str()),
            Error::Other(t) => t.clone(),
        }
    }
}

/// The message of an error ends in what was reported, and names the part where it is
/// known.
pub proof fn law_messages_tell_what_was_reported(t: Seq<char>)
    ensures
        ErrorView::Sqlite(t).message() == "sqlite error: "@ + t,
        ErrorView::Migrate(t).message() == "sqlite migration error: "@ + t,
        ErrorView::Qdrant(t).message() == "qdrant error: "@ + t,
        ErrorView::Redis(t).message() == "redis error: "@ + t,
        ErrorView::OpenRouter(t).message() == "openrouter error: "@ + t,
        ErrorView::Telegram(t).message() == "telegram error: "@ + t,
        ErrorView::Config(t).message() == "config error: "@ + t,
        ErrorView::Io(t).message() == "io error: "@ + t,
        ErrorView::Env(t).message() == "env error: "@ + t,
        ErrorView::Other(t).message() == t,
{
}

} // verus!
