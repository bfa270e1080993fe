//! The health report.
use vstd::prelude::*;

use crate::error::Error;

verus! {

/// The first lines of the metrics page of a bot that is up; the metrics follow.
pub const METRICS_BODY: &'static str =
    "# HELP up Whether the bot is running\n# TYPE up gauge\nup 1\n";
/// The kind of the metrics page.
pub const METRICS_CONTENT_TYPE: &'static str = "text/plain; version=0.0.4";

/// How a store is.
pub struct ComponentStatus {
    pub ok: bool,
    /// What is wrong; left out of the report where nothing is.
    pub error: Option<String>,
}

impl ComponentStatus {
    /// How a store is, by the result of its check.
    pub fn from_result(r: Result<(), Error>) -> (s: ComponentStatus)
        ensures
            s.ok == (r is Ok),
            s.error.deep_view() == (match r {
                Ok(_) => None,
                Err(e) => Some(e.deep_view().message()),
            }),
    {
        match r {
            Ok(()) => ComponentStatus { ok: true, error: None },
            Err(e) => ComponentStatus { ok: false, error: Some(e.message()) },
        }
    }
}

/// The report.
pub struct HealthzResponse {
    pub status: &'static str,
    pub sqlite: ComponentStatus,
    pub qdrant: ComponentStatus,
    pub redis: ComponentStatus,
}

/// The report with its HTTP status: 200 where all stores are well, else 503.
pub fn healthz(sqlite: ComponentStatus, qdrant: ComponentStatus, redis: ComponentStatus) -> (r: (
    u16,
    HealthzResponse,
))
    ensures
        r.0 == (if sqlite.ok && qdrant.ok && redis.ok {
            200u16
        } else {
            503u16
        }),
        r.1.status@ == (if sqlite.ok && qdrant.ok && redis.ok {
            "ok"@
        } else {
            "degraded"@
        }),
        r.1.sqlite == sqlite,
        r.1.qdrant == qdrant,
        r.1.redis == redis,
{
    let all_ok = sqlite.ok && qdrant.ok && redis.ok;
    let code: u16 = if all_ok {
        200
    } else {
        503
    };
    let status = if all_ok {
        "ok"
    } else {
        "degraded"
    };
    (code, HealthzResponse { status, sqlite, qdrant, redis })
}

} // verus!
