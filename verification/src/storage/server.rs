//! What the commands do on the server, and what the operations come to there.
//!
//! The server is a map from keys to values and a map from keys to remaining
//! seconds. An operation is run by asking for its next step, running the batch
//! and asking again.
use vstd::prelude::*;

use crate::error::ErrorView;
use crate::storage::redis::{CommandView, DatumView, OutcomeView, ReplyView, StepView};
use crate::text::decimal;

verus! {

/// A stored value.
#[verifier::ext_equal]
pub enum Stored {
    Int(i64),
    Text(Seq<char>),
    List(Seq<Seq<char>>),
    Members(Set<Seq<char>>),
}

/// The server: its values, and the seconds left to those that expire.
#[verifier::ext_equal]
pub struct Server {
    pub values: Map<Seq<char>, Stored>,
    pub ttl: Map<Seq<char>, int>,
}

impl Server {
    /// A value, by key.
    pub open spec fn get(self, key: Seq<char>) -> Option<Stored> {
        if self.values.dom().contains(key) {
            Some(self.values[key])
        } else {
            None
        }
    }

    /// The server with `key` holding `v`, its remaining life kept.
    pub open spec fn put(self, key: Seq<char>, v: Stored) -> Server {
        Server { values: self.values.insert(key, v), ttl: self.ttl }
    }

    /// The server without `key`.
    pub open spec fn without(self, key: Seq<char>) -> Server {
        Server { values: self.values.remove(key), ttl: self.ttl.remove(key) }
    }

    /// The server with `seconds` left to `key`.
    pub open spec fn expiring(self, key: Seq<char>, seconds: int) -> Server {
        Server { values: self.values, ttl: self.ttl.insert(key, seconds) }
    }

    /// The server after `seconds` without a command: what had no more than that
    /// left is gone.
    pub open spec fn after(self, seconds: int) -> Server {
        Server {
            values: Map::new(
                |k: Seq<char>|
                    self.values.dom().contains(k) && !(self.ttl.dom().contains(k) && self.ttl[k]
                        <= seconds),
                |k: Seq<char>| self.values[k],
            ),
            ttl: Map::new(
                |k: Seq<char>| self.ttl.dom().contains(k) && self.ttl[k] > seconds,
                |k: Seq<char>| self.ttl[k] - seconds,
            ),
        }
    }

    /// The number that `key` counts: 0 where there is none.
    pub open spec fn count(self, key: Seq<char>) -> int {
        match self.get(key) {
            Some(Stored::Int(i)) => i as int,
            _ => 0,
        }
    }

    /// `key` is absent or holds a number that can be counted up and down.
    pub open spec fn counts(self, key: Seq<char>) -> bool {
        match self.get(key) {
            None => true,
            Some(Stored::Int(i)) => i64::MIN < i && i < i64::MAX,
            _ => false,
        }
    }

    /// The list under `key`: empty where there is none.
    pub open spec fn list(self, key: Seq<char>) -> Seq<Seq<char>> {
        match self.get(key) {
            Some(Stored::List(l)) => l,
            _ => Seq::empty(),
        }
    }

    /// `key` is absent or holds a list whose length a number can give.
    pub open spec fn lists(self, key: Seq<char>) -> bool {
        match self.get(key) {
            None => true,
            Some(Stored::List(l)) => l.len() < i64::MAX,
            _ => false,
        }
    }
}

/// The items from `start` to `stop`, both included; a negative index counts from
/// the end.
pub open spec fn list_range(l: Seq<Seq<char>>, start: i64, stop: i64) -> Seq<Seq<char>> {
    let n = l.len() as int;
    let a = if start < 0 { if n + start < 0 { 0 } else { n + start } } else { start as int };
    let b = if stop < 0 { n + stop } else if stop >= n { n - 1 } else { stop as int };
    if a > b || a >= n {
        Seq::empty()
    } else {
        l.subrange(a, b + 1)
    }
}

/// What one command does and answers; none where the server refuses it.
pub open spec fn exec(s: Server, c: CommandView) -> Option<(Server, ReplyView)> {
    match c {
        CommandView::Ping => Some((s, ReplyView::Status("PONG"@))),
        CommandView::Get { key } => match s.get(key) {
            None => Some((s, ReplyView::Nil)),
            Some(Stored::Int(i)) => Some((s, ReplyView::Bulk(decimal(i as int)))),
            Some(Stored::Text(t)) => Some((s, ReplyView::Bulk(t))),
            _ => None,
        },
        CommandView::Store { key, datum, nx, ex } => {
            let v = match datum {
                DatumView::Int(i) => Stored::Int(i),
                DatumView::Text(t) => Stored::Text(t),
            };
            if ex == Some(0u64) {
                None
            } else if nx && s.get(key) is Some {
                Some((s, ReplyView::Nil))
            } else {
                match ex {
                    Some(e) => Some(
                        (s.put(key, v).expiring(key, e as int), ReplyView::Status("OK"@)),
                    ),
                    None => Some((s.without(key).put(key, v), ReplyView::Status("OK"@))),
                }
            }
        },
        CommandView::Ttl { key } => if s.get(key) is None {
            Some((s, ReplyView::Int((-2int) as i64)))
        } else if s.ttl.dom().contains(key) {
            Some((s, ReplyView::Int(s.ttl[key] as i64)))
        } else {
            Some((s, ReplyView::Int((-1int) as i64)))
        },
        CommandView::Incr { key } => if s.counts(key) {
            let n = (s.count(key) + 1) as i64;
            Some((s.put(key, Stored::Int(n)), ReplyView::Int(n)))
        } else {
            None
        },
        CommandView::Decr { key } => if s.counts(key) {
            let n = (s.count(key) - 1) as i64;
            Some((s.put(key, Stored::Int(n)), ReplyView::Int(n)))
        } else {
            None
        },
        CommandView::Del { key } => Some(
            (s.without(key), ReplyView::Int(if s.get(key) is Some { 1 } else { 0 })),
        ),
        CommandView::Expire { key, seconds } => if s.get(key) is None {
            Some((s, ReplyView::Int(0)))
        } else if seconds <= 0 {
            Some((s.without(key), ReplyView::Int(1)))
        } else {
            Some((s.expiring(key, seconds as int), ReplyView::Int(1)))
        },
        CommandView::Lpush { key, value } => if s.lists(key) {
            let l = seq![value] + s.list(key);
            Some((s.put(key, Stored::List(l)), ReplyView::Int(l.len() as i64)))
        } else {
            None
        },
        CommandView::Rpush { key, value } => if s.lists(key) {
            let l = s.list(key).push(value);
            Some((s.put(key, Stored::List(l)), ReplyView::Int(l.len() as i64)))
        } else {
            None
        },
        CommandView::Ltrim { key, start, stop } => if s.lists(key) {
            let l = list_range(s.list(key), start, stop);
            Some(
                (
                    if l.len() == 0 {
                        s.without(key)
                    } else {
                        s.put(key, Stored::List(l))
                    },
                    ReplyView::Status("OK"@),
                ),
            )
        } else {
            None
        },
        CommandView::Lrange { key, start, stop } => if s.lists(key) {
            Some((s, ReplyView::List(list_range(s.list(key), start, stop))))
        } else {
            None
        },
        CommandView::Lset { key, index, value } => if s.lists(key) && 0 <= index < s.list(
            key,
        ).len() {
            Some(
                (
                    s.put(key, Stored::List(s.list(key).update(index as int, value))),
                    ReplyView::Status("OK"@),
                ),
            )
        } else {
            None
        },
        CommandView::Llen { key } => if s.lists(key) {
            Some((s, ReplyView::Int(s.list(key).len() as i64)))
        } else {
            None
        },
        CommandView::Sadd { key, member } => match s.get(key) {
            None => Some((s.put(key, Stored::Members(set![member])), ReplyView::Int(1))),
            Some(Stored::Members(m)) => if m.contains(member) {
                Some((s, ReplyView::Int(0)))
            } else {
                Some((s.put(key, Stored::Members(m.insert(member))), ReplyView::Int(1)))
            },
            _ => None,
        },
    }
}

/// What a batch does and answers, command by command.
pub open spec fn exec_all(s: Server, cs: Seq<CommandView>) -> Option<(Server, Seq<ReplyView>)>
    decreases cs.len(),
{
    if cs.len() == 0 {
        Some((s, Seq::empty()))
    } else {
        match exec_all(s, cs.drop_last()) {
            None => None,
            Some((t, rs)) => match exec(t, cs.last()) {
                None => None,
                Some((u, r)) => Some((u, rs.push(r))),
            },
        }
    }
}

/// Runs an operation for at most `fuel` batches from the outcomes `seen` on: the
/// server it leaves and how it ended, or none where the server refuses a batch or
/// the operation wants another one.
pub open spec fn drive<V>(
    op: spec_fn(Seq<OutcomeView>) -> StepView<V>,
    s: Server,
    seen: Seq<OutcomeView>,
    fuel: nat,
) -> Option<(Server, Result<V, ErrorView>)>
    decreases fuel,
{
    match op(seen) {
        StepView::Done(v) => Some((s, Ok(v))),
        StepView::Fail(e) => Some((s, Err(e))),
        StepView::Run(cs) => if fuel == 0 {
            None
        } else {
            match exec_all(s, cs) {
                None => None,
                Some((t, rs)) => drive(
                    op,
                    t,
                    seen.push(OutcomeView::Replied(rs)),
                    (fuel - 1) as nat,
                ),
            }
        },
    }
}

/// Runs an operation to its end; none of them takes more than two batches.
pub open spec fn call<V>(
    op: spec_fn(Seq<OutcomeView>) -> StepView<V>,
    s: Server,
) -> Option<(Server, Result<V, ErrorView>)> {
    drive(op, s, Seq::empty(), 2)
}

/// A batch of one command.
pub proof fn lemma_one(s: Server, a: CommandView)
    ensures
        exec_all(s, seq![a]) == (match exec(s, a) {
            None => None::<(Server, Seq<ReplyView>)>,
            Some((t, r)) => Some((t, seq![r])),
        }),
{
    assert(seq![a].drop_last() =~= Seq::<CommandView>::empty());
    assert(exec_all(s, Seq::<CommandView>::empty()) == Some((s, Seq::<ReplyView>::empty())));
    if let Some((t, r)) = exec(s, a) {
        assert(Seq::<ReplyView>::empty().push(r) =~= seq![r]);
    }
}

/// A batch of two commands.
pub proof fn lemma_two(s: Server, a: CommandView, b: CommandView)
    ensures
        exec_all(s, seq![a, b]) == (match exec(s, a) {
            None => None::<(Server, Seq<ReplyView>)>,
            Some((t, r)) => match exec(t, b) {
                None => None,
                Some((u, q)) => Some((u, seq![r, q])),
            },
        }),
{
    assert(seq![a, b].drop_last() =~= seq![a]);
    lemma_one(s, a);
    if let Some((t, r)) = exec(s, a) {
        if let Some((u, q)) = exec(t, b) {
            assert(seq![r].push(q) =~= seq![r, q]);
        }
    }
}

} // verus!
