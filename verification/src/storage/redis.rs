//! Redis: rate limits, counters, the media cache and the event buffers.
//!
//! Every operation is a function of its arguments and of the outcomes seen so
//! far. It either names the next commands to run, as one atomic batch, or says
//! how the operation ended. Whoever talks to the server runs the commands,
//! appends the outcome and asks again.
use vstd::prelude::*;

use crate::error::{joined, result_view, Error, ErrorView};
use crate::text::{decimal, i64_to_string, push_text, same, u64_to_string};

verus! {

/// Seconds in a day.
pub const DAY_SEC: u64 = 86_400;
/// The counter of busy perception slots.
pub const VISION_SLOT_KEY: &'static str = "vision:slots";
/// Life of the slot counter in seconds, so that a crash cannot pin it forever.
pub const VISION_SLOT_TTL_SEC: u64 = 300;
/// Life of the candidate buffer in seconds.
pub const EVENT_CANDIDATES_TTL_SEC: i64 = 86_400;
/// Life of the set of recent texts in seconds.
pub const EVENT_DEDUP_SET_TTL_SEC: i64 = 3_600;
/// Length of the window of the chat quota in seconds.
pub const CHAT_QUOTA_WINDOW_SEC: i64 = 60;
/// The index of the last item of a list.
pub const LIST_END: i64 = -1;

/// A value to store.
pub enum Datum {
    Int(i64),
    Text(String),
}

/// A value to store, as a mathematical value.
pub enum DatumView {
    Int(i64),
    Text(Seq<char>),
}

/// A command.
pub enum Command {
    Ping,
    Get { key: String },
    Store { key: String, datum: Datum, nx: bool, ex: Option<u64> },
    Ttl { key: String },
    Incr { key: String },
    Decr { key: String },
    Del { key: String },
    Expire { key: String, seconds: i64 },
    Lpush { key: String, value: String },
    Rpush { key: String, value: String },
    Ltrim { key: String, start: i64, stop: i64 },
    Lrange { key: String, start: i64, stop: i64 },
    Lset { key: String, index: i64, value: String },
    Llen { key: String },
    Sadd { key: String, member: String },
}

/// A command as a mathematical value.
pub enum CommandView {
    Ping,
    Get { key: Seq<char> },
    Store { key: Seq<char>, datum: DatumView, nx: bool, ex: Option<u64> },
    Ttl { key: Seq<char> },
    Incr { key: Seq<char> },
    Decr { key: Seq<char> },
    Del { key: Seq<char> },
    Expire { key: Seq<char>, seconds: i64 },
    Lpush { key: Seq<char>, value: Seq<char> },
    Rpush { key: Seq<char>, value: Seq<char> },
    Ltrim { key: Seq<char>, start: i64, stop: i64 },
    Lrange { key: Seq<char>, start: i64, stop: i64 },
    Lset { key: Seq<char>, index: i64, value: Seq<char> },
    Llen { key: Seq<char> },
    Sadd { key: Seq<char>, member: Seq<char> },
}

/// What the server answers to one command.
pub enum Reply {
    Nil,
    Status(String),
    Int(i64),
    Bulk(String),
    List(Vec<String>),
}

/// An answer as a mathematical value.
pub enum ReplyView {
    Nil,
    Status(Seq<char>),
    Int(i64),
    Bulk(Seq<char>),
    List(Seq<Seq<char>>),
}

/// How a batch of commands went.
pub enum Outcome {
    /// No connection could be had.
    NoConnection(String),
    /// The batch failed.
    Failed(String),
    /// One answer for each command.
    Replied(Vec<Reply>),
}

/// An outcome as a mathematical value.
pub enum OutcomeView {
    NoConnection(Seq<char>),
    Failed(Seq<char>),
    Replied(Seq<ReplyView>),
}

/// What an operation does next.
pub enum Step<T> {
    /// Run these commands as one batch.
    Run(Vec<Command>),
    /// The operation ended with this value.
    Done(T),
    /// The operation failed.
    Fail(Error),
}

/// A step as a mathematical value.
#[verifier::ext_equal]
pub enum StepView<V> {
    Run(Seq<CommandView>),
    Done(V),
    Fail(ErrorView),
}

impl DeepView for Datum {
    type V = DatumView;

    open spec fn deep_view(&self) -> DatumView {
        match self {
            Datum::Int(i) => DatumView::Int(*i),
            Datum::Text(t) => DatumView::Text(t@),
        }
    }
}

impl DeepView for Command {
    type V = CommandView;

    open spec fn deep_view(&self) -> CommandView {
        match self {
            Command::Ping => CommandView::Ping,
            Command::Get { key } => CommandView::Get { key: key@ },
            Command::Store { key, datum, nx, ex } => CommandView::Store {
                key: key@,
                datum: datum.deep_view(),
                nx: *nx,
                ex: *ex,
            },
            Command::Ttl { key } => CommandView::Ttl { key: key@ },
            Command::Incr { key } => CommandView::Incr { key: key@ },
            Command::Decr { key } => CommandView::Decr { key: key@ },
            Command::Del { key } => CommandView::Del { key: key@ },
            Command::Expire { key, seconds } => CommandView::Expire {
                key: key@,
                seconds: *seconds,
            },
            Command::Lpush { key, value } => CommandView::Lpush { key: key@, value: value@ },
            Command::Rpush { key, value } => CommandView::Rpush { key: key@, value: value@ },
            Command::Ltrim { key, start, stop } => CommandView::Ltrim {
                key: key@,
                start: *start,
                stop: *stop,
            },
            Command::Lrange { key, start, stop } => CommandView::Lrange {
                key: key@,
                start: *start,
                stop: *stop,
            },
            Command::Lset { key, index, value } => CommandView::Lset {
                key: key@,
                index: *index,
                value: value@,
            },
            Command::Llen { key } => CommandView::Llen { key: key@ },
            Command::Sadd { key, member } => CommandView::Sadd { key: key@, member: member@ },
        }
    }
}

impl DeepView for Reply {
    type V = ReplyView;

    open spec fn deep_view(&self) -> ReplyView {
        match self {
            Reply::Nil => ReplyView::Nil,
            Reply::Status(t) => ReplyView::Status(t@),
            Reply::Int(i) => ReplyView::Int(*i),
            Reply::Bulk(t) => ReplyView::Bulk(t@),
            Reply::List(v) => ReplyView::List(v.deep_view()),
        }
    }
}

impl DeepView for Outcome {
    type V = OutcomeView;

    open spec fn deep_view(&self) -> OutcomeView {
        match self {
            Outcome::NoConnection(t) => OutcomeView::NoConnection(t@),
            Outcome::Failed(t) => OutcomeView::Failed(t@),
            Outcome::Replied(v) => OutcomeView::Replied(v.deep_view()),
        }
    }
}

impl<T: DeepView> DeepView for Step<T> {
    type V = StepView<T::V>;

    open spec fn deep_view(&self) -> StepView<T::V> {
        match self {
            Step::Run(c) => StepView::Run(c.deep_view()),
            Step::Done(v) => StepView::Done(v.deep_view()),
            Step::Fail(e) => StepView::Fail(e.deep_view()),
        }
    }
}

/// The words of a command as they go over the wire.
pub open spec fn wire(c: CommandView) -> Seq<Seq<char>> {
    match c {
        CommandView::Ping => seq!["PING"@],
        CommandView::Get { key } => seq!["GET"@, key],
        CommandView::Store { key, datum, nx, ex } => seq!["SET"@, key, datum_text(datum)] + (if nx {
            seq!["NX"@]
        } else {
            seq![]
        }) + (match ex {
            Some(s) => seq!["EX"@, decimal(s as int)],
            None => seq![],
        }),
        CommandView::Ttl { key } => seq!["TTL"@, key],
        CommandView::Incr { key } => seq!["INCR"@, key],
        CommandView::Decr { key } => seq!["DECR"@, key],
        CommandView::Del { key } => seq!["DEL"@, key],
        CommandView::Expire { key, seconds } => seq!["EXPIRE"@, key, decimal(seconds as int)],
        CommandView::Lpush { key, value } => seq!["LPUSH"@, key, value],
        CommandView::Rpush { key, value } => seq!["RPUSH"@, key, value],
        CommandView::Ltrim { key, start, stop } => seq![
            "LTRIM"@,
            key,
            decimal(start as int),
            decimal(stop as int),
        ],
        CommandView::Lrange { key, start, stop } => seq![
            "LRANGE"@,
            key,
            decimal(start as int),
            decimal(stop as int),
        ],
        CommandView::Lset { key, index, value } => seq!["LSET"@, key, decimal(index as int), value],
        CommandView::Llen { key } => seq!["LLEN"@, key],
        CommandView::Sadd { key, member } => seq!["SADD"@, key, member],
    }
}

/// The text of a stored value.
pub open spec fn datum_text(d: DatumView) -> Seq<char> {
    match d {
        DatumView::Int(i) => decimal(i as int),
        DatumView::Text(t) => t,
    }
}

/// `prefix`, the number, `suffix`.
pub open spec fn key_seq(prefix: Seq<char>, id: i64, suffix: Seq<char>) -> Seq<char> {
    prefix + decimal(id as int) + suffix
}

/// Renders `prefix`, the number and `suffix`.
pub fn numbered_key(prefix: &str, id: i64, suffix: &str) -> (r: String)
    ensures
        r@ == key_seq(prefix@, id, suffix@),
{
    let mut s = prefix.to_owned();
    let d = i64_to_string(id);
    s.append(d.as_str());
    s.append(suffix);
    s
}

fn owned2(a: &str, b: &String) -> (r: Vec<String>)
    ensures
        r.deep_view() =~= seq![a@, b@],
{
    let mut v: Vec<String> = Vec::new();
    v.push(a.to_owned());
    v.push(b.clone());
    v
}

fn owned3(a: &str, b: &String, c: &String) -> (r: Vec<String>)
    ensures
        r.deep_view() =~= seq![a@, b@, c@],
{
    let mut v = owned2(a, b);
    push_text(&mut v, c.as_str());
    v
}

fn owned4(a: &str, b: &String, c: &String, d: &String) -> (r: Vec<String>)
    ensures
        r.deep_view() =~= seq![a@, b@, c@, d@],
{
    let mut v = owned3(a, b, c);
    push_text(&mut v, d.as_str());
    v
}

impl Command {
    /// The words of the command as they go over the wire.
    pub fn words(&self) -> (r: Vec<String>)
        ensures
            r.deep_view() =~= wire(self.deep_view()),
    {
        match self {
            Command::Ping => {
                let mut v: Vec<String> = Vec::new();
                v.push("PING".to_owned());
                v
            },
            Command::Get { key } => owned2("GET", key),
            Command::Store { key, datum, nx, ex } => {
                let text = match datum {
                    Datum::Int(i) => i64_to_string(*i),
                    Datum::Text(t) => t.clone(),
                };
                let mut v = owned3("SET", key, &text);
                if *nx {
                    push_text(&mut v, "NX");
                }
                if let Some(s) = ex {
                    push_text(&mut v, "EX");
                    push_text(&mut v, u64_to_string(*s).as_str());
                }
                v
            },
            Command::Ttl { key } => owned2("TTL", key),
            Command::Incr { key } => owned2("INCR", key),
            Command::Decr { key } => owned2("DECR", key),
            Command::Del { key } => owned2("DEL", key),
            Command::Expire { key, seconds } => owned3("EXPIRE", key, &i64_to_string(*seconds)),
            Command::Lpush { key, value } => owned3("LPUSH", key, value),
            Command::Rpush { key, value } => owned3("RPUSH", key, value),
            Command::Ltrim { key, start, stop } => owned4(
                "LTRIM",
                key,
                &i64_to_string(*start),
                &i64_to_string(*stop),
            ),
            Command::Lrange { key, start, stop } => owned4(
                "LRANGE",
                key,
                &i64_to_string(*start),
                &i64_to_string(*stop),
            ),
            Command::Lset { key, index, value } => owned4(
                "LSET",
                key,
                &i64_to_string(*index),
                value,
            ),
            Command::Llen { key } => owned2("LLEN", key),
            Command::Sadd { key, member } => owned3("SADD", key, member),
        }
    }
}

/// The error for a batch, called `what`, that did not end in answers.
pub open spec fn batch_error(o: OutcomeView, what: Seq<char>) -> ErrorView {
    match o {
        OutcomeView::NoConnection(e) => ErrorView::Redis("get conn: "@ + e),
        OutcomeView::Failed(e) => ErrorView::Redis(what + ": "@ + e),
        OutcomeView::Replied(_) => ErrorView::Redis(what + ": "@ + "unexpected reply"@),
    }
}

/// The number that the batch answered first.
pub open spec fn int_reply(o: OutcomeView, what: Seq<char>) -> Result<i64, ErrorView> {
    match o {
        OutcomeView::Replied(r) if r.len() > 0 && r[0] is Int => Ok(r[0]->Int_0),
        _ => Err(batch_error(o, what)),
    }
}

/// The text that the batch answered first, or none.
pub open spec fn text_reply(o: OutcomeView, what: Seq<char>) -> Result<
    Option<Seq<char>>,
    ErrorView,
> {
    match o {
        OutcomeView::Replied(r) if r.len() > 0 && r[0] is Nil => Ok(None),
        OutcomeView::Replied(r) if r.len() > 0 && r[0] is Status => Ok(Some(r[0]->Status_0)),
        OutcomeView::Replied(r) if r.len() > 0 && r[0] is Bulk => Ok(Some(r[0]->Bulk_0)),
        _ => Err(batch_error(o, what)),
    }
}

/// The list that the batch answered first.
pub open spec fn list_reply(o: OutcomeView, what: Seq<char>) -> Result<
    Seq<Seq<char>>,
    ErrorView,
> {
    match o {
        OutcomeView::Replied(r) if r.len() > 0 && r[0] is List => Ok(r[0]->List_0),
        _ => Err(batch_error(o, what)),
    }
}

/// The batch was answered, whatever the answers are.
pub open spec fn any_reply(o: OutcomeView, what: Seq<char>) -> Result<(), ErrorView> {
    match o {
        OutcomeView::Replied(_) => Ok(()),
        _ => Err(batch_error(o, what)),
    }
}

fn failed(o: &Outcome, what: &str) -> (r: Error)
    ensures
        r.deep_view() == batch_error(o.deep_view(), what@),
{
    match o {
        Outcome::NoConnection(e) => Error::Redis(joined("get conn: ", e.as_str())),
        Outcome::Failed(e) => Error::Redis(joined(joined(what, ": ").as_str(), e.as_str())),
        Outcome::Replied(_) => Error::Redis(
            joined(joined(what, ": ").as_str(), "unexpected reply"),
        ),
    }
}

pub(crate) fn expect_int(o: &Outcome, what: &str) -> (r: Result<i64, Error>)
    ensures
        result_view(r) == int_reply(o.deep_view(), what@),
{
    if let Outcome::Replied(v) = o {
        if v.len() > 0 {
            assert(v.deep_view()[0] == v@[0].deep_view());
            if let Reply::Int(i) = &v[0] {
                return Ok(*i);
            }
        }
    }
    Err(failed(o, what))
}

pub(crate) fn expect_text(o: &Outcome, what: &str) -> (r: Result<Option<String>, Error>)
    ensures
        result_view(r) == text_reply(o.deep_view(), what@),
{
    if let Outcome::Replied(v) = o {
        if v.len() > 0 {
            assert(v.deep_view()[0] == v@[0].deep_view());
            match &v[0] {
                Reply::Nil => {
                    return Ok(None);
                },
                Reply::Status(t) => {
                    return Ok(Some(t.clone()));
                },
                Reply::Bulk(t) => {
                    return Ok(Some(t.clone()));
                },
                _ => {},
            }
        }
    }
    Err(failed(o, what))
}

pub(crate) fn expect_list(o: &Outcome, what: &str) -> (r: Result<Vec<String>, Error>)
    ensures
        result_view(r) == list_reply(o.deep_view(), what@),
{
    if let Outcome::Replied(v) = o {
        if v.len() > 0 {
            assert(v.deep_view()[0] == v@[0].deep_view());
            if let Reply::List(l) = &v[0] {
                let out = crate::text::copy_texts(l);
                assert(out.deep_view() =~= l.deep_view());
                return Ok(out);
            }
        }
    }
    Err(failed(o, what))
}

pub(crate) fn expect_any(o: &Outcome, what: &str) -> (r: Result<(), Error>)
    ensures
        result_view(r) == any_reply(o.deep_view(), what@),
{
    if let Outcome::Replied(_) = o {
        return Ok(());
    }
    Err(failed(o, what))
}

/// A batch of one command.
pub(crate) fn run1<T: DeepView>(c: Command) -> (r: Step<T>)
    ensures
        r.deep_view() == StepView::<T::V>::Run(seq![c.deep_view()]),
{
    let mut v: Vec<Command> = Vec::new();
    v.push(c);
    assert(v.deep_view() =~= seq![c.deep_view()]);
    Step::Run(v)
}

/// A batch of two commands.
pub(crate) fn run2<T: DeepView>(a: Command, b: Command) -> (r: Step<T>)
    ensures
        r.deep_view() == StepView::<T::V>::Run(seq![a.deep_view(), b.deep_view()]),
{
    let mut v: Vec<Command> = Vec::new();
    v.push(a);
    v.push(b);
    assert(v.deep_view() =~= seq![a.deep_view(), b.deep_view()]);
    Step::Run(v)
}

/// The key of the count for the facts.
pub open spec fn facts_counter_key(chat_id: i64, user_id: i64) -> Seq<char> {
    key_seq("facts:counter:"@, chat_id, ":"@) + decimal(user_id as int)
}

/// The key of the candidate buffer.
pub open spec fn candidates_key(chat_id: i64) -> Seq<char> {
    key_seq("chat:"@, chat_id, ":event_candidates"@)
}

/// The key of the set of recent texts.
pub open spec fn dedup_set_key(chat_id: i64) -> Seq<char> {
    key_seq("chat:"@, chat_id, ":event_dedup"@)
}

fn facts_key(chat_id: i64, user_id: i64) -> (r: String)
    ensures
        r@ == facts_counter_key(chat_id, user_id),
{
    let mut s = numbered_key("facts:counter:", chat_id, ":");
    let d = i64_to_string(user_id);
    s.append(d.as_str());
    s
}

/// The key of the candidate buffer.
pub fn event_candidates_key(chat_id: i64) -> (r: String)
    ensures
        r@ == candidates_key(chat_id),
{
    numbered_key("chat:", chat_id, ":event_candidates")
}

/// The key of the set of recent texts.
pub fn event_dedup_set_key(chat_id: i64) -> (r: String)
    ensures
        r@ == dedup_set_key(chat_id),
{
    numbered_key("chat:", chat_id, ":event_dedup")
}

/// The next step of a check of a user's cooldown.
pub open spec fn check_user_cooldown_step(user_id: i64, cooldown_sec: u32, seen: Seq<OutcomeView>) -> StepView<bool> {
    if cooldown_sec == 0 {
        StepView::Done(true)
    } else if seen.len() == 0 {
        StepView::Run(
            seq![
                CommandView::Store {
                    key: key_seq("rl:user:"@, user_id, ""@),
                    datum: DatumView::Int(1),
                    nx: true,
                    ex: Some(cooldown_sec as u64),
                },
            ],
        )
    } else {
        match text_reply(seen[0], "SET NX EX"@) {
            Ok(t) => StepView::Done(t == Some("OK"@)),
            Err(e) => StepView::Fail(e),
        }
    }
}

/// Per-user cooldown: at most one answer per `cooldown_sec` seconds. Ends in
/// `true` where the answer may go out (the cooldown was freshly set), in `false`
/// where the user still waits. A cooldown of 0 switches the limit off.
pub fn check_user_cooldown(user_id: i64, cooldown_sec: u32, seen: &[Outcome]) -> (r: Step<bool>)
    ensures
        r.deep_view() == check_user_cooldown_step(user_id, cooldown_sec, seen.deep_view()),
{
    if cooldown_sec == 0 {
        return Step::Done(true);
    }
    if seen.len() == 0 {
        return run1(
            Command::Store {
                key: numbered_key("rl:user:", user_id, ""),
                datum: Datum::Int(1),
                nx: true,
                ex: Some(cooldown_sec as u64),
            },
        );
    }
    match expect_text(&seen[0], "SET NX EX") {
        Ok(Some(t)) => Step::Done(same(t.as_str(), "OK")),
        Ok(None) => Step::Done(false),
        Err(e) => Step::Fail(e),
    }
}

/// The next step of a check of the cooldown of the ask command.
pub open spec fn check_ask_cooldown_step(user_id: i64, cooldown_sec: u64, seen: Seq<OutcomeView>) -> StepView<u64> {
    let key = key_seq("rl:ask:"@, user_id, ""@);
    if seen.len() == 0 {
        StepView::Run(seq![CommandView::Ttl { key }])
    } else {
        match int_reply(seen[0], "TTL"@) {
            Err(e) => StepView::Fail(e),
            Ok(ttl) => if ttl > 0 {
                StepView::Done(ttl as u64)
            } else if seen.len() == 1 {
                StepView::Run(
                    seq![
                        CommandView::Store {
                            key,
                            datum: DatumView::Int(1),
                            nx: false,
                            ex: Some(cooldown_sec),
                        },
                    ],
                )
            } else {
                match any_reply(seen[1], "SET EX"@) {
                    Err(e) => StepView::Fail(e),
                    Ok(_) => StepView::Done(0),
                }
            },
        }
    }
}

/// Cooldown of the ask command: ends in 0 where the question is allowed (and the
/// cooldown is then set), else in the seconds that remain.
pub fn check_ask_cooldown(user_id: i64, cooldown_sec: u64, seen: &[Outcome]) -> (r: Step<u64>)
    ensures
        r.deep_view() == check_ask_cooldown_step(user_id, cooldown_sec, seen.deep_view()),
{
    let key = numbered_key("rl:ask:", user_id, "");
    if seen.len() == 0 {
        return run1(Command::Ttl { key });
    }
    match expect_int(&seen[0], "TTL") {
        Err(e) => Step::Fail(e),
        Ok(ttl) => {
            if ttl > 0 {
                return Step::Done(ttl as u64);
            }
            if seen.len() == 1 {
                return run1(
                    Command::Store {
                        key,
                        datum: Datum::Int(1),
                        nx: false,
                        ex: Some(cooldown_sec),
                    },
                );
            }
            match expect_any(&seen[1], "SET EX") {
                Err(e) => Step::Fail(e),
                Ok(_) => Step::Done(0),
            }
        },
    }
}

/// The next step of a look into the media cache.
pub open spec fn get_media_desc_step(sha: Seq<char>, seen: Seq<OutcomeView>) -> StepView<Option<Seq<char>>> {
    let key = "media:"@ + sha;
    if seen.len() == 0 {
        StepView::Run(seq![CommandView::Get { key }])
    } else {
        match text_reply(seen[0], "GET "@ + key) {
            Ok(t) => StepView::Done(t),
            Err(e) => StepView::Fail(e),
        }
    }
}

/// The description of the media file with this digest, or none where the cache
/// has none.
pub fn get_media_desc(sha256_hex: &str, seen: &[Outcome]) -> (r: Step<Option<String>>)
    ensures
        r.deep_view() == get_media_desc_step(sha256_hex@, seen.deep_view()),
{
    let key = joined("media:", sha256_hex);
    if seen.len() == 0 {
        return run1(Command::Get { key });
    }
    let what = joined("GET ", key.as_str());
    match expect_text(&seen[0], what.as_str()) {
        Ok(t) => Step::Done(t),
        Err(e) => Step::Fail(e),
    }
}

/// The next step of a write to the media cache.
pub open spec fn put_media_desc_step(sha: Seq<char>, desc: Seq<char>, ttl_days: u32, seen: Seq<OutcomeView>) -> StepView<()> {
    let key = "media:"@ + sha;
    if seen.len() == 0 {
        StepView::Run(
            seq![
                CommandView::Store {
                    key,
                    datum: DatumView::Text(desc),
                    nx: false,
                    ex: Some((ttl_days * DAY_SEC) as u64),
                },
            ],
        )
    } else {
        match any_reply(seen[0], "SET "@ + key) {
            Ok(_) => StepView::Done(()),
            Err(e) => StepView::Fail(e),
        }
    }
}

/// Remembers a description for `ttl_days` days.
pub fn put_media_desc(sha256_hex: &str, desc: &str, ttl_days: u32, seen: &[Outcome]) -> (r: Step<()>)
    ensures
        r.deep_view() == put_media_desc_step(sha256_hex@, desc@, ttl_days, seen.deep_view()),
{
    let key = joined("media:", sha256_hex);
    if seen.len() == 0 {
        return run1(
            Command::Store {
                key,
                datum: Datum::Text(desc.to_owned()),
                nx: false,
                ex: Some((ttl_days as u64) * DAY_SEC),
            },
        );
    }
    let what = joined("SET ", key.as_str());
    match expect_any(&seen[0], what.as_str()) {
        Ok(_) => Step::Done(()),
        Err(e) => Step::Fail(e),
    }
}

/// The next step of taking a perception slot.
pub open spec fn acquire_vision_slot_step(max: u32, seen: Seq<OutcomeView>) -> StepView<bool> {
    if max == 0 {
        StepView::Done(true)
    } else if seen.len() == 0 {
        StepView::Run(seq![CommandView::Incr { key: VISION_SLOT_KEY@ }])
    } else {
        match int_reply(seen[0], "INCR vision"@) {
            Err(e) => StepView::Fail(e),
            Ok(count) => if count == 1 {
                if seen.len() == 1 {
                    StepView::Run(
                        seq![
                            CommandView::Expire {
                                key: VISION_SLOT_KEY@,
                                seconds: VISION_SLOT_TTL_SEC as i64,
                            },
                        ],
                    )
                } else {
                    match int_reply(seen[1], "EXPIRE vision"@) {
                        Err(e) => StepView::Fail(e),
                        Ok(_) => StepView::Done(true),
                    }
                }
            } else if count > max {
                if seen.len() == 1 {
                    StepView::Run(seq![CommandView::Decr { key: VISION_SLOT_KEY@ }])
                } else {
                    match int_reply(seen[1], "DECR vision rollback"@) {
                        Err(e) => StepView::Fail(e),
                        Ok(_) => StepView::Done(false),
                    }
                }
            } else {
                StepView::Done(true)
            },
        }
    }
}

/// Tries to take one of `max` perception slots: counts up, and counts down again
/// where that went over `max`. Ends in `true` where a slot was taken, in `false`
/// where all are busy. The first count sets the life of the counter. With `max`
/// 0 there is no limit.
pub fn acquire_vision_slot(max: u32, seen: &[Outcome]) -> (r: Step<bool>)
    ensures
        r.deep_view() == acquire_vision_slot_step(max, seen.deep_view()),
{
    if max == 0 {
        return Step::Done(true);
    }
    if seen.len() == 0 {
        return run1(Command::Incr { key: VISION_SLOT_KEY.to_owned() });
    }
    let count = match expect_int(&seen[0], "INCR vision") {
        Err(e) => {
            return Step::Fail(e);
        },
        Ok(count) => count,
    };
    if count == 1 {
        if seen.len() == 1 {
            return run1(
                Command::Expire {
                    key: VISION_SLOT_KEY.to_owned(),
                    seconds: VISION_SLOT_TTL_SEC as i64,
                },
            );
        }
        return match expect_int(&seen[1], "EXPIRE vision") {
            Err(e) => Step::Fail(e),
            Ok(_) => Step::Done(true),
        };
    }
    if count > max as i64 {
        if seen.len() == 1 {
            return run1(Command::Decr { key: VISION_SLOT_KEY.to_owned() });
        }
        return match expect_int(&seen[1], "DECR vision rollback") {
            Err(e) => Step::Fail(e),
            Ok(_) => Step::Done(false),
        };
    }
    Step::Done(true)
}

/// The next step of giving a perception slot back.
pub open spec fn release_vision_slot_step(seen: Seq<OutcomeView>) -> StepView<()> {
    if seen.len() == 0 {
        StepView::Run(seq![CommandView::Decr { key: VISION_SLOT_KEY@ }])
    } else {
        match int_reply(seen[0], "DECR vision"@) {
            Err(e) => StepView::Fail(e),
            Ok(count) => if count >= 0 {
                StepView::Done(())
            } else if seen.len() == 1 {
                StepView::Run(
                    seq![
                        CommandView::Store {
                            key: VISION_SLOT_KEY@,
                            datum: DatumView::Int(0),
                            nx: false,
                            ex: Some(VISION_SLOT_TTL_SEC),
                        },
                    ],
                )
            } else {
                match any_reply(seen[1], "SET vision reset"@) {
                    Err(e) => StepView::Fail(e),
                    Ok(_) => StepView::Done(()),
                }
            },
        }
    }
}

/// Gives a perception slot back. A counter below zero means a release without its
/// acquire, or a counter that had expired; it is put back to zero.
pub fn release_vision_slot(seen: &[Outcome]) -> (r: Step<()>)
    ensures
        r.deep_view() == release_vision_slot_step(seen.deep_view()),
{
    if seen.len() == 0 {
        return run1(Command::Decr { key: VISION_SLOT_KEY.to_owned() });
    }
    match expect_int(&seen[0], "DECR vision") {
        Err(e) => Step::Fail(e),
        Ok(count) => {
            if count >= 0 {
                return Step::Done(());
            }
            if seen.len() == 1 {
                return run1(
                    Command::Store {
                        key: VISION_SLOT_KEY.to_owned(),
                        datum: Datum::Int(0),
                        nx: false,
                        ex: Some(VISION_SLOT_TTL_SEC),
                    },
                );
            }
            match expect_any(&seen[1], "SET vision reset") {
                Err(e) => Step::Fail(e),
                Ok(_) => Step::Done(()),
            }
        },
    }
}

/// The next step of a check of a chat's quota.
pub open spec fn check_chat_quota_step(chat_id: i64, max_per_min: u32, seen: Seq<OutcomeView>) -> StepView<bool> {
    let key = key_seq("rl:chat:"@, chat_id, ""@);
    if max_per_min == 0 {
        StepView::Done(true)
    } else if seen.len() == 0 {
        StepView::Run(seq![CommandView::Incr { key }])
    } else {
        match int_reply(seen[0], "INCR"@) {
            Err(e) => StepView::Fail(e),
            Ok(count) => if count == 1 && seen.len() == 1 {
                StepView::Run(
                    seq![CommandView::Expire { key, seconds: CHAT_QUOTA_WINDOW_SEC }],
                )
            } else if count == 1 && int_reply(seen[1], "EXPIRE"@) is Err {
                StepView::Fail(int_reply(seen[1], "EXPIRE"@)->Err_0)
            } else {
                StepView::Done(count <= max_per_min)
            },
        }
    }
}

/// Per-chat quota: at most `max_per_min` answers in a window of a minute that
/// starts with the first of them. Ends in `true` while the count is within the
/// quota. A quota of 0 switches the limit off.
pub fn check_chat_quota(chat_id: i64, max_per_min: u32, seen: &[Outcome]) -> (r: Step<bool>)
    ensures
        r.deep_view() == check_chat_quota_step(chat_id, max_per_min, seen.deep_view()),
{
    if max_per_min == 0 {
        return Step::Done(true);
    }
    let key = numbered_key("rl:chat:", chat_id, "");
    if seen.len() == 0 {
        return run1(Command::Incr { key });
    }
    let count = match expect_int(&seen[0], "INCR") {
        Err(e) => {
            return Step::Fail(e);
        },
        Ok(count) => count,
    };
    if count == 1 {
        if seen.len() == 1 {
            return run1(Command::Expire { key, seconds: CHAT_QUOTA_WINDOW_SEC });
        }
        if let Err(e) = expect_int(&seen[1], "EXPIRE") {
            return Step::Fail(e);
        }
    }
    Step::Done(count <= max_per_min as i64)
}

/// The next step of counting a message for the summaries.
pub open spec fn incr_episodic_counter_step(chat_id: i64, seen: Seq<OutcomeView>) -> StepView<i64> {
    let key = key_seq("episodic:counter:"@, chat_id, ""@);
    if seen.len() == 0 {
        StepView::Run(seq![CommandView::Incr { key }])
    } else {
        match int_reply(seen[0], "INCR episodic counter"@) {
            Ok(v) => StepView::Done(v),
            Err(e) => StepView::Fail(e),
        }
    }
}

/// Counts one message of the chat and ends in the new count.
pub fn incr_episodic_counter(chat_id: i64, seen: &[Outcome]) -> (r: Step<i64>)
    ensures
        r.deep_view() == incr_episodic_counter_step(chat_id, seen.deep_view()),
{
    if seen.len() == 0 {
        let key = numbered_key("episodic:counter:", chat_id, "");
        return run1(Command::Incr { key });
    }
    match expect_int(&seen[0], "INCR episodic counter") {
        Ok(v) => Step::Done(v),
        Err(e) => Step::Fail(e),
    }
}

/// The next step of starting the count for the summaries anew.
pub open spec fn reset_episodic_counter_step(chat_id: i64, seen: Seq<OutcomeView>) -> StepView<()> {
    let key = key_seq("episodic:counter:"@, chat_id, ""@);
    if seen.len() == 0 {
        StepView::Run(seq![CommandView::Del { key }])
    } else {
        match any_reply(seen[0], "DEL episodic counter"@) {
            Ok(_) => StepView::Done(()),
            Err(e) => StepView::Fail(e),
        }
    }
}

/// Starts the count of the chat's messages anew.
pub fn reset_episodic_counter(chat_id: i64, seen: &[Outcome]) -> (r: Step<()>)
    ensures
        r.deep_view() == reset_episodic_counter_step(chat_id, seen.deep_view()),
{
    if seen.len() == 0 {
        let key = numbered_key("episodic:counter:", chat_id, "");
        return run1(Command::Del { key });
    }
    match expect_any(&seen[0], "DEL episodic counter") {
        Ok(_) => Step::Done(()),
        Err(e) => Step::Fail(e),
    }
}

/// The next step of counting a message for the facts.
pub open spec fn incr_facts_counter_step(chat_id: i64, user_id: i64, seen: Seq<OutcomeView>) -> StepView<i64> {
    let key = facts_counter_key(chat_id, user_id);
    if seen.len() == 0 {
        StepView::Run(seq![CommandView::Incr { key }])
    } else {
        match int_reply(seen[0], "INCR facts counter"@) {
            Ok(v) => StepView::Done(v),
            Err(e) => StepView::Fail(e),
        }
    }
}

/// Counts one message of the user in the chat and ends in the new count.
pub fn incr_facts_counter(chat_id: i64, user_id: i64, seen: &[Outcome]) -> (r: Step<i64>)
    ensures
        r.deep_view() == incr_facts_counter_step(chat_id, user_id, seen.deep_view()),
{
    if seen.len() == 0 {
        let key = facts_key(chat_id, user_id);
        return run1(Command::Incr { key });
    }
    match expect_int(&seen[0], "INCR facts counter") {
        Ok(v) => Step::Done(v),
        Err(e) => Step::Fail(e),
    }
}

/// The next step of starting the count for the facts anew.
pub open spec fn reset_facts_counter_step(chat_id: i64, user_id: i64, seen: Seq<OutcomeView>) -> StepView<()> {
    let key = facts_counter_key(chat_id, user_id);
    if seen.len() == 0 {
        StepView::Run(seq![CommandView::Del { key }])
    } else {
        match any_reply(seen[0], "DEL facts counter"@) {
            Ok(_) => StepView::Done(()),
            Err(e) => StepView::Fail(e),
        }
    }
}

/// Starts the count of the user's messages in the chat anew.
pub fn reset_facts_counter(chat_id: i64, user_id: i64, seen: &[Outcome]) -> (r: Step<()>)
    ensures
        r.deep_view() == reset_facts_counter_step(chat_id, user_id, seen.deep_view()),
{
    if seen.len() == 0 {
        let key = facts_key(chat_id, user_id);
        return run1(Command::Del { key });
    }
    match expect_any(&seen[0], "DEL facts counter") {
        Ok(_) => Step::Done(()),
        Err(e) => Step::Fail(e),
    }
}

/// The next step of measuring the candidate buffer.
pub open spec fn len_event_candidates_step(chat_id: i64, seen: Seq<OutcomeView>) -> StepView<i64> {
    let key = candidates_key(chat_id);
    if seen.len() == 0 {
        StepView::Run(seq![CommandView::Llen { key }])
    } else {
        match int_reply(seen[0], "LLEN event candidates"@) {
            Ok(v) => StepView::Done(v),
            Err(e) => StepView::Fail(e),
        }
    }
}

/// The length of the chat's candidate buffer.
pub fn len_event_candidates(chat_id: i64, seen: &[Outcome]) -> (r: Step<i64>)
    ensures
        r.deep_view() == len_event_candidates_step(chat_id, seen.deep_view()),
{
    if seen.len() == 0 {
        let key = event_candidates_key(chat_id);
        return run1(Command::Llen { key });
    }
    match expect_int(&seen[0], "LLEN event candidates") {
        Ok(v) => Step::Done(v),
        Err(e) => Step::Fail(e),
    }
}

/// The next step of adding a candidate.
pub open spec fn push_event_candidate_step(chat_id: i64, payload: Seq<char>, seen: Seq<OutcomeView>) -> StepView<i64> {
    let key = candidates_key(chat_id);
    if seen.len() == 0 {
        StepView::Run(
            seq![
                CommandView::Rpush { key, value: payload },
                CommandView::Expire { key, seconds: EVENT_CANDIDATES_TTL_SEC },
            ],
        )
    } else {
        match int_reply(seen[0], "RPUSH event candidate"@) {
            Ok(len) => StepView::Done(len),
            Err(e) => StepView::Fail(e),
        }
    }
}

/// Appends a candidate to the chat's buffer and ends in the new length.
pub fn push_event_candidate(chat_id: i64, payload: &str, seen: &[Outcome]) -> (r: Step<i64>)
    ensures
        r.deep_view() == push_event_candidate_step(chat_id, payload@, seen.deep_view()),
{
    if seen.len() == 0 {
        return run2(
            Command::Rpush { key: event_candidates_key(chat_id), value: payload.to_owned() },
            Command::Expire {
                key: event_candidates_key(chat_id),
                seconds: EVENT_CANDIDATES_TTL_SEC,
            },
        );
    }
    match expect_int(&seen[0], "RPUSH event candidate") {
        Ok(len) => Step::Done(len),
        Err(e) => Step::Fail(e),
    }
}

/// The next step of emptying the candidate buffer.
pub open spec fn pop_event_candidates_step(chat_id: i64, seen: Seq<OutcomeView>) -> StepView<Seq<Seq<char>>> {
    let key = candidates_key(chat_id);
    if seen.len() == 0 {
        StepView::Run(
            seq![
                CommandView::Lrange { key, start: 0, stop: LIST_END },
                CommandView::Del { key },
            ],
        )
    } else {
        match list_reply(seen[0], "pop event candidates"@) {
            Ok(l) => StepView::Done(l),
            Err(e) => StepView::Fail(e),
        }
    }
}

/// Reads the chat's candidates, oldest first, and clears the buffer in the same
/// batch.
pub fn pop_event_candidates(chat_id: i64, seen: &[Outcome]) -> (r: Step<Vec<String>>)
    ensures
        r.deep_view() == pop_event_candidates_step(chat_id, seen.deep_view()),
{
    if seen.len() == 0 {
        return run2(
            Command::Lrange { key: event_candidates_key(chat_id), start: 0, stop: LIST_END },
            Command::Del { key: event_candidates_key(chat_id) },
        );
    }
    match expect_list(&seen[0], "pop event candidates") {
        Ok(l) => Step::Done(l),
        Err(e) => Step::Fail(e),
    }
}

/// The next step of recording a text.
pub open spec fn record_unique_event_hash_step(chat_id: i64, hash: Seq<char>, seen: Seq<OutcomeView>) -> StepView<bool> {
    let key = dedup_set_key(chat_id);
    if seen.len() == 0 {
        StepView::Run(
            seq![
                CommandView::Sadd { key, member: hash },
                CommandView::Expire { key, seconds: EVENT_DEDUP_SET_TTL_SEC },
            ],
        )
    } else {
        match int_reply(seen[0], "record unique event hash"@) {
            Ok(added) => StepView::Done(added == 1),
            Err(e) => StepView::Fail(e),
        }
    }
}

/// Records the digest of a text in the chat's set of recent texts. Ends in `true`
/// where it was not there yet. Each call renews the life of the set.
pub fn record_unique_event_hash(chat_id: i64, hash: &str, seen: &[Outcome]) -> (r: Step<bool>)
    ensures
        r.deep_view() == record_unique_event_hash_step(chat_id, hash@, seen.deep_view()),
{
    if seen.len() == 0 {
        return run2(
            Command::Sadd { key: event_dedup_set_key(chat_id), member: hash.to_owned() },
            Command::Expire {
                key: event_dedup_set_key(chat_id),
                seconds: EVENT_DEDUP_SET_TTL_SEC,
            },
        );
    }
    match expect_int(&seen[0], "record unique event hash") {
        Ok(added) => Step::Done(added == 1),
        Err(e) => Step::Fail(e),
    }
}

/// The next step of a check that the server is there.
pub open spec fn healthcheck_step(seen: Seq<OutcomeView>) -> StepView<()> {
    if seen.len() == 0 {
        StepView::Run(seq![CommandView::Ping])
    } else {
        match text_reply(seen[0], "PING"@) {
            Err(e) => StepView::Fail(e),
            Ok(None) => StepView::Fail(ErrorView::Redis("PING: "@ + "unexpected reply"@)),
            Ok(Some(t)) => if t == "PONG"@ {
                StepView::Done(())
            } else {
                StepView::Fail(ErrorView::Redis("unexpected PING response: "@ + t))
            },
        }
    }
}

/// Pings the server; anything but a pong is an error.
pub fn healthcheck(seen: &[Outcome]) -> (r: Step<()>)
    ensures
        r.deep_view() == healthcheck_step(seen.deep_view()),
{
    if seen.len() == 0 {
        return run1(Command::Ping);
    }
    match expect_text(&seen[0], "PING") {
        Err(e) => Step::Fail(e),
        Ok(None) => Step::Fail(Error::Redis(joined("PING: ", "unexpected reply"))),
        Ok(Some(t)) => {
            if same(t.as_str(), "PONG") {
                Step::Done(())
            } else {
                Step::Fail(Error::Redis(joined("unexpected PING response: ", t.as_str())))
            }
        },
    }
}

/// The batch that puts candidates back in front of the buffer: one push to the
/// head for each, the last one first, and the life of the buffer renewed.
pub open spec fn requeue_commands(chat_id: i64, payloads: Seq<Seq<char>>) -> Seq<CommandView> {
    Seq::new(
        payloads.len() + 1,
        |i: int|
            if i < payloads.len() {
                CommandView::Lpush {
                    key: candidates_key(chat_id),
                    value: payloads[payloads.len() - 1 - i],
                }
            } else {
                CommandView::Expire {
                    key: candidates_key(chat_id),
                    seconds: EVENT_CANDIDATES_TTL_SEC,
                }
            },
    )
}

/// The next step of putting candidates back.
pub open spec fn requeue_event_candidates_step(
    chat_id: i64,
    payloads: Seq<Seq<char>>,
    seen: Seq<OutcomeView>,
) -> StepView<()> {
    if payloads.len() == 0 {
        StepView::Done(())
    } else if seen.len() == 0 {
        StepView::Run(requeue_commands(chat_id, payloads))
    } else {
        match any_reply(seen[0], "requeue event candidates"@) {
            Ok(_) => StepView::Done(()),
            Err(e) => StepView::Fail(e),
        }
    }
}

/// Puts candidates back in front of whatever came in since they were taken out,
/// in their old order.
pub fn requeue_event_candidates(
    chat_id: i64,
    payloads: &Vec<String>,
    seen: &[Outcome],
) -> (r: Step<()>)
    ensures
        r.deep_view() == requeue_event_candidates_step(
            chat_id,
            payloads.deep_view(),
            seen.deep_view(),
        ),
{
    if payloads.len() == 0 {
        return Step::Done(());
    }
    if seen.len() == 0 {
        let mut v: Vec<Command> = Vec::new();
        let n = payloads.len();
        let ghost all = requeue_commands(chat_id, payloads.deep_view());
        for i in 0..n
            invariant
                n == payloads@.len(),
                all == requeue_commands(chat_id, payloads.deep_view()),
                v.deep_view() == all.take(i as int),
        {
            let ghost before = v.deep_view();
            v.push(
                Command::Lpush {
                    key: event_candidates_key(chat_id),
                    value: payloads[n - 1 - i].clone(),
                },
            );
            assert(v.deep_view() =~= before.push(all[i as int]));
            assert(all.take(i + 1) =~= all.take(i as int).push(all[i as int]));
        }
        let ghost before = v.deep_view();
        v.push(
            Command::Expire {
                key: event_candidates_key(chat_id),
                seconds: EVENT_CANDIDATES_TTL_SEC,
            },
        );
        assert(v.deep_view() =~= before.push(all[n as int]));
        assert(v.deep_view() =~= all);
        return Step::Run(v);
    }
    match expect_any(&seen[0], "requeue event candidates") {
        Ok(_) => Step::Done(()),
        Err(e) => Step::Fail(e),
    }
}

/// The key of a chat's portrait.
pub open spec fn dna_key(chat_id: i64) -> Seq<char> {
    key_seq("chat:"@, chat_id, ":dna"@)
}

/// The next step of a look for a chat's portrait.
pub open spec fn get_chat_dna_step(chat_id: i64, seen: Seq<OutcomeView>) -> StepView<
    Option<Seq<char>>,
> {
    if seen.len() == 0 {
        StepView::Run(seq![CommandView::Get { key: dna_key(chat_id) }])
    } else {
        match text_reply(seen[0], "GET chat DNA"@) {
            Ok(t) => StepView::Done(t),
            Err(e) => StepView::Fail(e),
        }
    }
}

/// The portrait of a chat, or none where none is kept.
pub fn get_chat_dna(chat_id: i64, seen: &[Outcome]) -> (r: Step<Option<String>>)
    ensures
        r.deep_view() == get_chat_dna_step(chat_id, seen.deep_view()),
{
    if seen.len() == 0 {
        return run1(Command::Get { key: numbered_key("chat:", chat_id, ":dna") });
    }
    match expect_text(&seen[0], "GET chat DNA") {
        Ok(t) => Step::Done(t),
        Err(e) => Step::Fail(e),
    }
}

/// The next step of keeping a chat's portrait.
pub open spec fn set_chat_dna_step(
    chat_id: i64,
    dna: Seq<char>,
    ttl_sec: u64,
    seen: Seq<OutcomeView>,
) -> StepView<()> {
    if seen.len() == 0 {
        StepView::Run(
            seq![
                CommandView::Store {
                    key: dna_key(chat_id),
                    datum: DatumView::Text(dna),
                    nx: false,
                    ex: Some(ttl_sec),
                },
            ],
        )
    } else {
        match any_reply(seen[0], "SET chat DNA"@) {
            Ok(_) => StepView::Done(()),
            Err(e) => StepView::Fail(e),
        }
    }
}

/// Keeps the portrait of a chat for `ttl_sec` seconds.
pub fn set_chat_dna(chat_id: i64, dna: &str, ttl_sec: u64, seen: &[Outcome]) -> (r: Step<()>)
    ensures
        r.deep_view() == set_chat_dna_step(chat_id, dna@, ttl_sec, seen.deep_view()),
{
    if seen.len() == 0 {
        return run1(
            Command::Store {
                key: numbered_key("chat:", chat_id, ":dna"),
                datum: Datum::Text(dna.to_owned()),
                nx: false,
                ex: Some(ttl_sec),
            },
        );
    }
    match expect_any(&seen[0], "SET chat DNA") {
        Ok(_) => Step::Done(()),
        Err(e) => Step::Fail(e),
    }
}

} // verus!
