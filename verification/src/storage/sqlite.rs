//! SQLite: how the database is opened.
use vstd::prelude::*;

use crate::error::joined;

verus! {

/// How long a writer waits for another, in milliseconds.
pub const BUSY_TIMEOUT_MS: u64 = 5000;

/// The address of the database in the file at `path`.
pub fn database_url(path: &str) -> (r: String)
    ensures
        r@ == "sqlite://"@ + path@,
{
    joined("sqlite://", path)
}

} // verus!
