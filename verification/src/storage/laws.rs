//! What the operations promise of the server, over several calls and over time.
use vstd::prelude::*;

use crate::error::ErrorView;
use crate::storage::redis::{
    acquire_vision_slot_step, candidates_key, check_ask_cooldown_step, check_chat_quota_step,
    check_user_cooldown_step, dedup_set_key, dna_key, facts_counter_key, get_chat_dna_step,
    get_media_desc_step,
    healthcheck_step, incr_episodic_counter_step, incr_facts_counter_step, key_seq,
    len_event_candidates_step, pop_event_candidates_step, push_event_candidate_step,
    put_media_desc_step, record_unique_event_hash_step, release_vision_slot_step,
    requeue_commands, requeue_event_candidates_step, reset_episodic_counter_step,
    reset_facts_counter_step, set_chat_dna_step, CommandView, DatumView, OutcomeView, ReplyView, CHAT_QUOTA_WINDOW_SEC,
    DAY_SEC, EVENT_CANDIDATES_TTL_SEC, EVENT_DEDUP_SET_TTL_SEC, LIST_END, VISION_SLOT_KEY,
    VISION_SLOT_TTL_SEC,
};
use crate::storage::server::{
    call, drive, exec_all, lemma_one, lemma_two, list_range, Server, Stored,
};
use crate::text::{decimal, law_decimal_is_injective, lemma_decimal_chars};

verus! {

/// How a call of an operation went on a server that took its batches.
pub type Ended<V> = Option<(Server, Result<V, ErrorView>)>;

/// The server that a call left.
pub open spec fn left_by<V>(e: Ended<V>) -> Server {
    (e->0).0
}

/// A check of a user's cooldown on the server.
pub open spec fn cooldown_call(s: Server, user_id: i64, sec: u32) -> Ended<bool> {
    call(|seen: Seq<OutcomeView>| check_user_cooldown_step(user_id, sec, seen), s)
}

/// A check of the ask cooldown on the server.
pub open spec fn ask_call(s: Server, user_id: i64, sec: u64) -> Ended<u64> {
    call(|seen: Seq<OutcomeView>| check_ask_cooldown_step(user_id, sec, seen), s)
}

/// A check of a chat's quota on the server.
pub open spec fn quota_call(s: Server, chat_id: i64, max: u32) -> Ended<bool> {
    call(|seen: Seq<OutcomeView>| check_chat_quota_step(chat_id, max, seen), s)
}

/// A look into the media cache on the server.
pub open spec fn get_media_call(s: Server, sha: Seq<char>) -> Ended<Option<Seq<char>>> {
    call(|seen: Seq<OutcomeView>| get_media_desc_step(sha, seen), s)
}

/// A write to the media cache on the server.
pub open spec fn put_media_call(
    s: Server,
    sha: Seq<char>,
    desc: Seq<char>,
    ttl_days: u32,
) -> Ended<()> {
    call(|seen: Seq<OutcomeView>| put_media_desc_step(sha, desc, ttl_days, seen), s)
}

/// Taking a perception slot on the server.
pub open spec fn acquire_call(s: Server, max: u32) -> Ended<bool> {
    call(|seen: Seq<OutcomeView>| acquire_vision_slot_step(max, seen), s)
}

/// Giving a perception slot back on the server.
pub open spec fn release_call(s: Server) -> Ended<()> {
    call(|seen: Seq<OutcomeView>| release_vision_slot_step(seen), s)
}

/// Adding a candidate on the server.
pub open spec fn push_candidate_call(s: Server, chat_id: i64, payload: Seq<char>) -> Ended<i64> {
    call(|seen: Seq<OutcomeView>| push_event_candidate_step(chat_id, payload, seen), s)
}

/// Emptying the candidate buffer on the server.
pub open spec fn pop_candidates_call(s: Server, chat_id: i64) -> Ended<Seq<Seq<char>>> {
    call(|seen: Seq<OutcomeView>| pop_event_candidates_step(chat_id, seen), s)
}

/// Putting candidates back on the server.
pub open spec fn requeue_call(s: Server, chat_id: i64, payloads: Seq<Seq<char>>) -> Ended<()> {
    call(|seen: Seq<OutcomeView>| requeue_event_candidates_step(chat_id, payloads, seen), s)
}

/// Measuring the candidate buffer on the server.
pub open spec fn len_candidates_call(s: Server, chat_id: i64) -> Ended<i64> {
    call(|seen: Seq<OutcomeView>| len_event_candidates_step(chat_id, seen), s)
}

/// Recording a text on the server.
pub open spec fn record_hash_call(s: Server, chat_id: i64, hash: Seq<char>) -> Ended<bool> {
    call(|seen: Seq<OutcomeView>| record_unique_event_hash_step(chat_id, hash, seen), s)
}

/// Counting a message for the summaries on the server.
pub open spec fn incr_episodic_call(s: Server, chat_id: i64) -> Ended<i64> {
    call(|seen: Seq<OutcomeView>| incr_episodic_counter_step(chat_id, seen), s)
}

/// Starting the count for the summaries anew on the server.
pub open spec fn reset_episodic_call(s: Server, chat_id: i64) -> Ended<()> {
    call(|seen: Seq<OutcomeView>| reset_episodic_counter_step(chat_id, seen), s)
}

/// Counting a message for the facts on the server.
pub open spec fn incr_facts_call(s: Server, chat_id: i64, user_id: i64) -> Ended<i64> {
    call(|seen: Seq<OutcomeView>| incr_facts_counter_step(chat_id, user_id, seen), s)
}

/// Starting the count for the facts anew on the server.
pub open spec fn reset_facts_call(s: Server, chat_id: i64, user_id: i64) -> Ended<()> {
    call(|seen: Seq<OutcomeView>| reset_facts_counter_step(chat_id, user_id, seen), s)
}

/// A check that the server is there.
pub open spec fn health_call(s: Server) -> Ended<()> {
    call(|seen: Seq<OutcomeView>| healthcheck_step(seen), s)
}

/// A server that answers is healthy and is left as it was.
pub proof fn law_health(s: Server)
    ensures
        health_call(s) == Some((s, Ok::<(), ErrorView>(()))),
{
    reveal_with_fuel(drive, 3);
    lemma_one(s, CommandView::Ping);
}

/// The first check lets the user through and remembers it for the whole cooldown.
/// Any further check within the cooldown stops the user and changes nothing. Once
/// the cooldown has passed, the user gets through again.
pub proof fn law_cooldown_blocks(s: Server, user_id: i64, sec: u32, wait: int)
    requires
        sec > 0,
        s.get(key_seq("rl:user:"@, user_id, ""@)) is None,
        0 <= wait < sec,
    ensures
        ({
            let key = key_seq("rl:user:"@, user_id, ""@);
            let t = s.put(key, Stored::Int(1)).expiring(key, sec as int);
            let u = t.after(wait);
            &&& cooldown_call(s, user_id, sec) == Some((t, Ok::<bool, ErrorView>(true)))
            &&& cooldown_call(u, user_id, sec) == Some((u, Ok::<bool, ErrorView>(false)))
            &&& t.after(sec as int).get(key) is None
        }),
{
    let key = key_seq("rl:user:"@, user_id, ""@);
    let c = CommandView::Store {
        key,
        datum: DatumView::Int(1),
        nx: true,
        ex: Some(sec as u64),
    };
    let t = s.put(key, Stored::Int(1)).expiring(key, sec as int);
    reveal_with_fuel(drive, 3);
    lemma_one(s, c);
    lemma_one(t.after(wait), c);
}

/// A cooldown of 0 lets everyone through and leaves the server as it was.
pub proof fn law_cooldown_zero_is_off(s: Server, user_id: i64)
    ensures
        cooldown_call(s, user_id, 0) == Some((s, Ok::<bool, ErrorView>(true))),
{
}

/// The first question is allowed. A further one within the cooldown is told the
/// seconds that remain and changes nothing. After the cooldown the next is
/// allowed again.
pub proof fn law_ask_cooldown(s: Server, user_id: i64, sec: u64, wait: int)
    requires
        0 < sec <= i64::MAX,
        s.get(key_seq("rl:ask:"@, user_id, ""@)) is None,
        0 <= wait < sec,
    ensures
        ({
            let key = key_seq("rl:ask:"@, user_id, ""@);
            let t = s.put(key, Stored::Int(1)).expiring(key, sec as int);
            let u = t.after(wait);
            &&& ask_call(s, user_id, sec) == Some((t, Ok::<u64, ErrorView>(0)))
            &&& ask_call(u, user_id, sec) == Some((u, Ok::<u64, ErrorView>((sec - wait) as u64)))
            &&& t.after(sec as int).get(key) is None
        }),
{
    let key = key_seq("rl:ask:"@, user_id, ""@);
    let ttl = CommandView::Ttl { key };
    let c = CommandView::Store { key, datum: DatumView::Int(1), nx: false, ex: Some(sec) };
    let t = s.put(key, Stored::Int(1)).expiring(key, sec as int);
    let u = t.after(wait);
    reveal_with_fuel(drive, 4);
    lemma_one(s, ttl);
    lemma_one(s, c);
    lemma_one(u, ttl);
}

/// A question of one user does not touch the cooldown of another: whatever came of it,
/// the other's next question, at any later time, is answered as if it had not been
/// asked, and leaves the other's cooldown as it would have.
pub proof fn law_ask_cooldown_is_per_user(
    s: Server,
    user_id: i64,
    sec: u64,
    other: i64,
    other_sec: u64,
    wait: int,
)
    requires
        user_id != other,
        sec > 0,
        other_sec > 0,
        wait >= 0,
    ensures
        ({
            let key = key_seq("rl:ask:"@, other, ""@);
            let t = left_by(ask_call(s, user_id, sec)).after(wait);
            let u = s.after(wait);
            let a = ask_call(t, other, other_sec);
            let b = ask_call(u, other, other_sec);
            &&& ask_call(s, user_id, sec) is Some
            &&& a is Some && b is Some
            &&& (a->0).1 == (b->0).1
            &&& left_by(a).get(key) == left_by(b).get(key)
            &&& left_by(a).ttl.dom().contains(key) <==> left_by(b).ttl.dom().contains(key)
            &&& left_by(a).ttl.dom().contains(key) ==> left_by(a).ttl[key] == left_by(b).ttl[key]
        }),
{
    let mine = key_seq("rl:ask:"@, user_id, ""@);
    let key = key_seq("rl:ask:"@, other, ""@);
    assert(mine != key) by {
        if mine == key {
            law_keys_do_not_clash("rl:ask:"@, user_id, other, ""@);
        }
    }
    lemma_ask(s, user_id, sec);
    lemma_ask(left_by(ask_call(s, user_id, sec)).after(wait), other, other_sec);
    lemma_ask(s.after(wait), other, other_sec);
}

/// What is left of a user's cooldown, as the server tells it.
spec fn told_wait(s: Server, key: Seq<char>) -> i64 {
    if s.get(key) is Some && s.ttl.dom().contains(key) {
        s.ttl[key] as i64
    } else {
        0
    }
}

proof fn lemma_ask(s: Server, user_id: i64, sec: u64)
    requires
        sec > 0,
    ensures
        ({
            let key = key_seq("rl:ask:"@, user_id, ""@);
            ask_call(s, user_id, sec) == (if told_wait(s, key) > 0 {
                Some((s, Ok::<u64, ErrorView>(told_wait(s, key) as u64)))
            } else {
                Some(
                    (
                        s.put(key, Stored::Int(1)).expiring(key, sec as int),
                        Ok::<u64, ErrorView>(0),
                    ),
                )
            })
        }),
{
    let key = key_seq("rl:ask:"@, user_id, ""@);
    reveal_with_fuel(drive, 4);
    lemma_one(s, CommandView::Ttl { key });
    lemma_one(
        s,
        CommandView::Store { key, datum: DatumView::Int(1), nx: false, ex: Some(sec) },
    );
}

/// A call of the quota counts one more, is let through exactly while the count is
/// within the quota, and starts the window where it is the first.
pub proof fn law_quota_call(s: Server, chat_id: i64, max: u32)
    requires
        max > 0,
        s.counts(key_seq("rl:chat:"@, chat_id, ""@)),
    ensures
        ({
            let key = key_seq("rl:chat:"@, chat_id, ""@);
            let n = s.count(key) + 1;
            let t = s.put(key, Stored::Int(n as i64));
            let u = if n == 1 {
                t.expiring(key, CHAT_QUOTA_WINDOW_SEC as int)
            } else {
                t
            };
            quota_call(s, chat_id, max) == Some((u, Ok::<bool, ErrorView>(n <= max)))
        }),
{
    let key = key_seq("rl:chat:"@, chat_id, ""@);
    let n = s.count(key) + 1;
    let t = s.put(key, Stored::Int(n as i64));
    reveal_with_fuel(drive, 4);
    lemma_one(s, CommandView::Incr { key });
    lemma_one(t, CommandView::Expire { key, seconds: CHAT_QUOTA_WINDOW_SEC });
}

/// The server after `n` calls of the quota, one after the other.
pub open spec fn quota_calls(s: Server, chat_id: i64, max: u32, n: nat) -> Server
    decreases n,
{
    if n == 0 {
        s
    } else {
        left_by(quota_call(quota_calls(s, chat_id, max, (n - 1) as nat), chat_id, max))
    }
}

/// In a fresh window the first `max` calls are let through and every later one is
/// stopped. The window ends a minute after the first call, and then the chat
/// starts afresh.
pub proof fn law_quota_blocks_after_max(s: Server, chat_id: i64, max: u32, n: nat)
    requires
        max > 0,
        1 <= n < i64::MAX,
        s.get(key_seq("rl:chat:"@, chat_id, ""@)) is None,
    ensures
        ({
            let key = key_seq("rl:chat:"@, chat_id, ""@);
            let before = quota_calls(s, chat_id, max, (n - 1) as nat);
            let after = quota_calls(s, chat_id, max, n);
            &&& quota_call(before, chat_id, max) == Some(
                (after, Ok::<bool, ErrorView>(n <= max)),
            )
            &&& after.count(key) == n
            &&& after.ttl == s.ttl.insert(key, 60)
            &&& after.after(60).get(key) is None
        }),
    decreases n,
{
    let key = key_seq("rl:chat:"@, chat_id, ""@);
    if n == 1 {
        law_quota_call(s, chat_id, max);
    } else {
        law_quota_blocks_after_max(s, chat_id, max, (n - 1) as nat);
        law_quota_call(quota_calls(s, chat_id, max, (n - 1) as nat), chat_id, max);
    }
}

/// A quota of 0 lets every call through and leaves the server as it was.
pub proof fn law_quota_zero_is_off(s: Server, chat_id: i64)
    ensures
        quota_call(s, chat_id, 0) == Some((s, Ok::<bool, ErrorView>(true))),
{
}

/// What was never written is a miss.
pub proof fn law_media_miss(s: Server, sha: Seq<char>)
    requires
        s.get("media:"@ + sha) is None,
    ensures
        get_media_call(s, sha) == Some((s, Ok::<Option<Seq<char>>, ErrorView>(None))),
{
    reveal_with_fuel(drive, 3);
    lemma_one(s, CommandView::Get { key: "media:"@ + sha });
}

/// A look gives back what was written last, for as many days as it was written
/// for, and nothing after that.
pub proof fn law_media_round_trip(
    s: Server,
    sha: Seq<char>,
    desc: Seq<char>,
    ttl_days: u32,
    wait: int,
)
    requires
        ttl_days > 0,
        0 <= wait < ttl_days * DAY_SEC,
    ensures
        ({
            let key = "media:"@ + sha;
            let t = s.put(key, Stored::Text(desc)).expiring(key, ttl_days * DAY_SEC);
            let u = t.after(wait);
            let gone = t.after(ttl_days * DAY_SEC);
            &&& put_media_call(s, sha, desc, ttl_days) == Some((t, Ok::<(), ErrorView>(())))
            &&& get_media_call(u, sha) == Some(
                (u, Ok::<Option<Seq<char>>, ErrorView>(Some(desc))),
            )
            &&& get_media_call(gone, sha) == Some(
                (gone, Ok::<Option<Seq<char>>, ErrorView>(None)),
            )
        }),
{
    let key = "media:"@ + sha;
    let t = s.put(key, Stored::Text(desc)).expiring(key, ttl_days * DAY_SEC);
    reveal_with_fuel(drive, 3);
    lemma_one(
        s,
        CommandView::Store {
            key,
            datum: DatumView::Text(desc),
            nx: false,
            ex: Some((ttl_days * DAY_SEC) as u64),
        },
    );
    lemma_one(t.after(wait), CommandView::Get { key });
    law_media_miss(t.after(ttl_days * DAY_SEC), sha);
}

/// The perception slots in use.
pub open spec fn slots(s: Server) -> int {
    s.count(VISION_SLOT_KEY@)
}

/// A slot is granted exactly while fewer than `max` are in use, and then one more
/// is in use. A refused attempt leaves the count as it was. So the count never
/// goes over `max`.
pub proof fn law_acquire(s: Server, max: u32)
    requires
        max > 0,
        s.counts(VISION_SLOT_KEY@),
        0 <= slots(s) <= max,
    ensures
        acquire_call(s, max) matches Some((t, Ok(granted))) && {
            &&& granted == (slots(s) < max)
            &&& slots(t) == slots(s) + (if granted { 1int } else { 0 })
            &&& 0 <= slots(t) <= max
            &&& t.counts(VISION_SLOT_KEY@)
            &&& slots(s) == 0 ==> t.ttl == s.ttl.insert(
                VISION_SLOT_KEY@,
                VISION_SLOT_TTL_SEC as int,
            )
            &&& slots(s) > 0 ==> t.ttl == s.ttl
        },
{
    let key = VISION_SLOT_KEY@;
    let n = slots(s) + 1;
    let t = s.put(key, Stored::Int(n as i64));
    reveal_with_fuel(drive, 4);
    lemma_one(s, CommandView::Incr { key });
    lemma_one(t, CommandView::Expire { key, seconds: VISION_SLOT_TTL_SEC as i64 });
    lemma_one(t, CommandView::Decr { key });
}

/// Giving a slot back leaves one less in use.
pub proof fn law_release(s: Server)
    requires
        s.counts(VISION_SLOT_KEY@),
        slots(s) > 0,
    ensures
        release_call(s) == Some(
            (s.put(VISION_SLOT_KEY@, Stored::Int((slots(s) - 1) as i64)), Ok::<(), ErrorView>(())),
        ),
{
    reveal_with_fuel(drive, 3);
    lemma_one(s, CommandView::Decr { key: VISION_SLOT_KEY@ });
}

/// A granted slot that is given back leaves as many in use as before.
pub proof fn law_acquire_then_release(s: Server, max: u32)
    requires
        max > 0,
        s.counts(VISION_SLOT_KEY@),
        0 <= slots(s) < max,
    ensures
        acquire_call(s, max) matches Some((t, Ok(true))) && release_call(t) matches Some(
            (u, Ok(_)),
        ) && slots(u) == slots(s),
{
    law_acquire(s, max);
    law_release(left_by(acquire_call(s, max)));
}

/// Giving back a slot that nobody holds puts the count to 0 for the guard time,
/// so that the next attempt finds a sane count.
pub proof fn law_release_resets(s: Server)
    requires
        s.counts(VISION_SLOT_KEY@),
        slots(s) <= 0,
    ensures
        release_call(s) matches Some((t, r)) && {
            &&& r is Ok
            &&& slots(t) == 0
            &&& t.counts(VISION_SLOT_KEY@)
            &&& t == s.put(VISION_SLOT_KEY@, Stored::Int(0)).expiring(
                VISION_SLOT_KEY@,
                VISION_SLOT_TTL_SEC as int,
            )
        },
{
    let key = VISION_SLOT_KEY@;
    let n = slots(s) - 1;
    let t = s.put(key, Stored::Int(n as i64));
    reveal_with_fuel(drive, 4);
    lemma_one(s, CommandView::Decr { key });
    lemma_one(
        t,
        CommandView::Store {
            key,
            datum: DatumView::Int(0),
            nx: false,
            ex: Some(VISION_SLOT_TTL_SEC),
        },
    );
    assert(t.put(key, Stored::Int(0)) =~= s.put(key, Stored::Int(0)));
}

/// The server after `n` attempts to take a slot, one after the other.
pub open spec fn acquire_calls(s: Server, max: u32, n: nat) -> Server
    decreases n,
{
    if n == 0 {
        s
    } else {
        left_by(acquire_call(acquire_calls(s, max, (n - 1) as nat), max))
    }
}

/// Where no slot is in use, the first `max` attempts in a row are granted and every
/// later one is refused.
pub proof fn law_acquires_up_to_max(s: Server, max: u32, n: nat)
    requires
        max > 0,
        n >= 1,
        s.counts(VISION_SLOT_KEY@),
        slots(s) == 0,
    ensures
        ({
            let before = acquire_calls(s, max, (n - 1) as nat);
            let after = acquire_calls(s, max, n);
            &&& acquire_call(before, max) == Some((after, Ok::<bool, ErrorView>(n <= max)))
            &&& after.counts(VISION_SLOT_KEY@)
            &&& slots(after) == (if n <= max {
                n as int
            } else {
                max as int
            })
        }),
    decreases n,
{
    if n > 1 {
        law_acquires_up_to_max(s, max, (n - 1) as nat);
    }
    law_acquire(acquire_calls(s, max, (n - 1) as nat), max);
}

/// A release without its acquire spoils nothing: afterwards exactly `max` attempts in a
/// row are granted.
pub proof fn law_stray_release_is_harmless(s: Server, max: u32, n: nat)
    requires
        max > 0,
        n >= 1,
        s.counts(VISION_SLOT_KEY@),
        slots(s) <= 0,
    ensures
        release_call(s) matches Some((t, Ok(_))) && acquire_call(
            acquire_calls(t, max, (n - 1) as nat),
            max,
        ) matches Some((_, Ok(granted))) && granted == (n <= max),
{
    law_release_resets(s);
    law_acquires_up_to_max(left_by(release_call(s)), max, n);
}

/// With a maximum of 0 every attempt is granted and the server stays as it was.
pub proof fn law_acquire_zero_is_off(s: Server)
    ensures
        acquire_call(s, 0) == Some((s, Ok::<bool, ErrorView>(true))),
{
}

/// Adding a candidate puts it behind the others, renews the life of the buffer
/// and gives the new length.
pub proof fn law_push_candidate(s: Server, chat_id: i64, payload: Seq<char>)
    requires
        s.lists(candidates_key(chat_id)),
    ensures
        ({
            let key = candidates_key(chat_id);
            let l = s.list(key).push(payload);
            push_candidate_call(s, chat_id, payload) == Some(
                (
                    s.put(key, Stored::List(l)).expiring(key, EVENT_CANDIDATES_TTL_SEC as int),
                    Ok::<i64, ErrorView>(l.len() as i64),
                ),
            )
        }),
{
    let key = candidates_key(chat_id);
    reveal_with_fuel(drive, 3);
    lemma_two(
        s,
        CommandView::Rpush { key, value: payload },
        CommandView::Expire { key, seconds: EVENT_CANDIDATES_TTL_SEC },
    );
}

/// Emptying the buffer gives all candidates, oldest first, and leaves none.
pub proof fn law_pop_candidates(s: Server, chat_id: i64)
    requires
        s.lists(candidates_key(chat_id)),
    ensures
        pop_candidates_call(s, chat_id) == Some(
            (
                s.without(candidates_key(chat_id)),
                Ok::<Seq<Seq<char>>, ErrorView>(s.list(candidates_key(chat_id))),
            ),
        ),
{
    let key = candidates_key(chat_id);
    reveal_with_fuel(drive, 3);
    lemma_two(
        s,
        CommandView::Lrange { key, start: 0, stop: LIST_END },
        CommandView::Del { key },
    );
    assert(list_range(s.list(key), 0, LIST_END) =~= s.list(key));
}

/// The length is that of the buffer, and reading it changes nothing.
pub proof fn law_len_candidates(s: Server, chat_id: i64)
    requires
        s.lists(candidates_key(chat_id)),
    ensures
        len_candidates_call(s, chat_id) == Some(
            (s, Ok::<i64, ErrorView>(s.list(candidates_key(chat_id)).len() as i64)),
        ),
{
    reveal_with_fuel(drive, 3);
    lemma_one(s, CommandView::Llen { key: candidates_key(chat_id) });
}

proof fn lemma_requeue_prefix(s: Server, chat_id: i64, payloads: Seq<Seq<char>>, i: int)
    requires
        0 <= i <= payloads.len(),
        s.lists(candidates_key(chat_id)),
        s.list(candidates_key(chat_id)).len() + payloads.len() < i64::MAX,
    ensures
        ({
            let key = candidates_key(chat_id);
            let n = payloads.len() as int;
            let l = payloads.skip(n - i) + s.list(key);
            let done = exec_all(s, requeue_commands(chat_id, payloads).take(i));
            &&& i == 0 ==> done == Some((s, Seq::<ReplyView>::empty()))
            &&& i > 0 ==> done is Some && (done->0).0 == s.put(key, Stored::List(l))
        }),
    decreases i,
{
    let key = candidates_key(chat_id);
    let n = payloads.len() as int;
    let cs = requeue_commands(chat_id, payloads);
    if i > 0 {
        lemma_requeue_prefix(s, chat_id, payloads, i - 1);
        assert(cs.take(i).drop_last() =~= cs.take(i - 1));
        let c = cs[i - 1];
        assert(c == CommandView::Lpush { key, value: payloads[n - i] });
        let t = (exec_all(s, cs.take(i - 1))->0).0;
        assert(seq![payloads[n - i]] + (payloads.skip(n - i + 1) + s.list(key)) =~= payloads.skip(
            n - i,
        ) + s.list(key));
        if i == 1 {
            assert(payloads.skip(n) + s.list(key) =~= s.list(key));
        } else {
            assert(t.put(key, Stored::List(payloads.skip(n - i) + s.list(key))) =~= s.put(
                key,
                Stored::List(payloads.skip(n - i) + s.list(key)),
            ));
        }
    }
}

/// Candidates that are put back stand in their old order in front of whatever
/// came in meanwhile.
pub proof fn law_requeue(s: Server, chat_id: i64, payloads: Seq<Seq<char>>)
    requires
        payloads.len() > 0,
        s.lists(candidates_key(chat_id)),
        s.list(candidates_key(chat_id)).len() + payloads.len() < i64::MAX,
    ensures
        ({
            let key = candidates_key(chat_id);
            requeue_call(s, chat_id, payloads) == Some(
                (
                    s.put(key, Stored::List(payloads + s.list(key))).expiring(
                        key,
                        EVENT_CANDIDATES_TTL_SEC as int,
                    ),
                    Ok::<(), ErrorView>(()),
                ),
            )
        }),
{
    let key = candidates_key(chat_id);
    let cs = requeue_commands(chat_id, payloads);
    let n = payloads.len() as int;
    reveal_with_fuel(drive, 3);
    lemma_requeue_prefix(s, chat_id, payloads, n);
    assert(cs.drop_last() =~= cs.take(n));
    assert(payloads.skip(0) =~= payloads);
    assert(cs.last() == CommandView::Expire { key, seconds: EVENT_CANDIDATES_TTL_SEC });
    let op = |seen: Seq<OutcomeView>| requeue_event_candidates_step(chat_id, payloads, seen);
    assert(exec_all(s, cs) is Some);
}

/// The server after these candidates were added, one after the other.
pub open spec fn push_calls(s: Server, chat_id: i64, payloads: Seq<Seq<char>>) -> Server
    decreases payloads.len(),
{
    if payloads.len() == 0 {
        s
    } else {
        left_by(
            push_candidate_call(
                push_calls(s, chat_id, payloads.drop_last()),
                chat_id,
                payloads.last(),
            ),
        )
    }
}

/// Candidates that are added stand behind those that were there, in the order in which
/// they came.
pub proof fn law_pushes_line_up(s: Server, chat_id: i64, payloads: Seq<Seq<char>>)
    requires
        s.lists(candidates_key(chat_id)),
        s.list(candidates_key(chat_id)).len() + payloads.len() < i64::MAX,
    ensures
        ({
            let key = candidates_key(chat_id);
            let t = push_calls(s, chat_id, payloads);
            &&& t.lists(key)
            &&& t.list(key) == s.list(key) + payloads
        }),
    decreases payloads.len(),
{
    let key = candidates_key(chat_id);
    if payloads.len() == 0 {
        assert(s.list(key) + payloads =~= s.list(key));
    } else {
        let init = payloads.drop_last();
        law_pushes_line_up(s, chat_id, init);
        law_push_candidate(push_calls(s, chat_id, init), chat_id, payloads.last());
        assert((s.list(key) + init).push(payloads.last()) =~= s.list(key) + payloads);
    }
}

/// Candidates that are taken out and put back, all of them or some, stand in the order
/// in which they are put back in front of all that came in meanwhile. So putting all of
/// them back loses none and keeps the order.
pub proof fn law_pop_then_requeue(
    s: Server,
    chat_id: i64,
    newer: Seq<Seq<char>>,
    back: Seq<Seq<char>>,
)
    requires
        s.lists(candidates_key(chat_id)),
        newer.len() + back.len() < i64::MAX,
    ensures
        ({
            let key = candidates_key(chat_id);
            let popped = pop_candidates_call(s, chat_id)->0;
            let pushed = push_calls(popped.0, chat_id, newer);
            let put = requeue_call(pushed, chat_id, back)->0;
            &&& popped.1 == Ok::<Seq<Seq<char>>, ErrorView>(s.list(key))
            &&& put.1 is Ok
            &&& put.0.list(key) == back + newer
        }),
{
    let key = candidates_key(chat_id);
    law_pop_candidates(s, chat_id);
    let t = s.without(key);
    law_pushes_line_up(t, chat_id, newer);
    let u = push_calls(t, chat_id, newer);
    assert(t.list(key) + newer =~= newer);
    if back.len() == 0 {
        assert(back + newer =~= newer);
    } else {
        law_requeue(u, chat_id, back);
    }
}

/// A text is new the first time and known from then on, until an hour has passed
/// without a call. Every call renews that hour.
pub proof fn law_record_hash(s: Server, chat_id: i64, hash: Seq<char>, wait: int)
    requires
        s.get(dedup_set_key(chat_id)) matches Some(v) ==> v is Members && !v->Members_0.contains(
            hash,
        ),
        0 <= wait < EVENT_DEDUP_SET_TTL_SEC,
    ensures
        record_hash_call(s, chat_id, hash) matches Some((t, Ok(fresh))) && {
            let key = dedup_set_key(chat_id);
            &&& fresh
            &&& t.ttl == s.ttl.insert(key, EVENT_DEDUP_SET_TTL_SEC as int)
            &&& record_hash_call(t.after(wait), chat_id, hash) matches Some((u, Ok(again)))
                && !again && u.ttl[key] == EVENT_DEDUP_SET_TTL_SEC
            &&& t.after(EVENT_DEDUP_SET_TTL_SEC as int).get(key) is None
        },
{
    let key = dedup_set_key(chat_id);
    let a = CommandView::Sadd { key, member: hash };
    let b = CommandView::Expire { key, seconds: EVENT_DEDUP_SET_TTL_SEC };
    reveal_with_fuel(drive, 3);
    lemma_two(s, a, b);
    let t = left_by(record_hash_call(s, chat_id, hash));
    lemma_two(t.after(wait), a, b);
}

/// The count for the summaries goes up by one, and the first message after a reset
/// counts 1.
pub proof fn law_episodic_counter(s: Server, chat_id: i64)
    requires
        s.counts(key_seq("episodic:counter:"@, chat_id, ""@)),
    ensures
        ({
            let key = key_seq("episodic:counter:"@, chat_id, ""@);
            let n = (s.count(key) + 1) as i64;
            &&& incr_episodic_call(s, chat_id) == Some(
                (s.put(key, Stored::Int(n)), Ok::<i64, ErrorView>(n)),
            )
            &&& reset_episodic_call(s, chat_id) == Some(
                (s.without(key), Ok::<(), ErrorView>(())),
            )
            &&& incr_episodic_call(s.without(key), chat_id) matches Some((_, Ok(m))) && m == 1
        }),
{
    let key = key_seq("episodic:counter:"@, chat_id, ""@);
    reveal_with_fuel(drive, 3);
    lemma_one(s, CommandView::Incr { key });
    lemma_one(s, CommandView::Del { key });
    lemma_one(s.without(key), CommandView::Incr { key });
}

/// The count for the facts goes up by one, and the first message after a reset
/// counts 1.
pub proof fn law_facts_counter(s: Server, chat_id: i64, user_id: i64)
    requires
        s.counts(facts_counter_key(chat_id, user_id)),
    ensures
        ({
            let key = facts_counter_key(chat_id, user_id);
            let n = (s.count(key) + 1) as i64;
            &&& incr_facts_call(s, chat_id, user_id) == Some(
                (s.put(key, Stored::Int(n)), Ok::<i64, ErrorView>(n)),
            )
            &&& reset_facts_call(s, chat_id, user_id) == Some(
                (s.without(key), Ok::<(), ErrorView>(())),
            )
            &&& incr_facts_call(s.without(key), chat_id, user_id) matches Some((_, Ok(m))) && m
                == 1
        }),
{
    let key = facts_counter_key(chat_id, user_id);
    reveal_with_fuel(drive, 3);
    lemma_one(s, CommandView::Incr { key });
    lemma_one(s, CommandView::Del { key });
    lemma_one(s.without(key), CommandView::Incr { key });
}

/// A look for a chat's portrait on the server.
pub open spec fn get_dna_call(s: Server, chat_id: i64) -> Ended<Option<Seq<char>>> {
    call(|seen: Seq<OutcomeView>| get_chat_dna_step(chat_id, seen), s)
}

/// Keeping a chat's portrait on the server.
pub open spec fn set_dna_call(s: Server, chat_id: i64, dna: Seq<char>, ttl_sec: u64) -> Ended<()> {
    call(|seen: Seq<OutcomeView>| set_chat_dna_step(chat_id, dna, ttl_sec, seen), s)
}

/// A look gives back the portrait that was kept, until its time is over.
pub proof fn law_dna_round_trip(
    s: Server,
    chat_id: i64,
    dna: Seq<char>,
    ttl_sec: u64,
    wait: int,
)
    requires
        0 <= wait < ttl_sec,
    ensures
        ({
            let key = dna_key(chat_id);
            let t = s.put(key, Stored::Text(dna)).expiring(key, ttl_sec as int);
            let u = t.after(wait);
            let gone = t.after(ttl_sec as int);
            &&& set_dna_call(s, chat_id, dna, ttl_sec) == Some((t, Ok::<(), ErrorView>(())))
            &&& get_dna_call(u, chat_id) == Some(
                (u, Ok::<Option<Seq<char>>, ErrorView>(Some(dna))),
            )
            &&& get_dna_call(gone, chat_id) == Some(
                (gone, Ok::<Option<Seq<char>>, ErrorView>(None)),
            )
        }),
{
    let key = dna_key(chat_id);
    let t = s.put(key, Stored::Text(dna)).expiring(key, ttl_sec as int);
    reveal_with_fuel(drive, 3);
    lemma_one(
        s,
        CommandView::Store { key, datum: DatumView::Text(dna), nx: false, ex: Some(ttl_sec) },
    );
    lemma_one(t.after(wait), CommandView::Get { key });
    lemma_one(t.after(ttl_sec as int), CommandView::Get { key });
}

/// No two chats, and no two users, share a key: what is counted or kept for one is not
/// touched by another.
pub proof fn law_keys_do_not_clash(prefix: Seq<char>, a: i64, b: i64, suffix: Seq<char>)
    requires
        key_seq(prefix, a, suffix) == key_seq(prefix, b, suffix),
    ensures
        a == b,
{
    let ka = key_seq(prefix, a, suffix);
    let kb = key_seq(prefix, b, suffix);
    let da = decimal(a as int);
    let db = decimal(b as int);
    let n = prefix.len() as int;
    assert(ka.len() == n + da.len() + suffix.len());
    assert(da =~= ka.subrange(n, n + da.len()));
    assert(db =~= kb.subrange(n, n + db.len()));
    law_decimal_is_injective(a as int, b as int);
}

/// No two pairs of chat and user share a count for the facts.
pub proof fn law_facts_keys_do_not_clash(chat_a: i64, user_a: i64, chat_b: i64, user_b: i64)
    requires
        facts_counter_key(chat_a, user_a) == facts_counter_key(chat_b, user_b),
    ensures
        chat_a == chat_b,
        user_a == user_b,
{
    reveal_strlit(":");
    let p = "facts:counter:"@;
    let n = p.len() as int;
    let ka = facts_counter_key(chat_a, user_a);
    let kb = facts_counter_key(chat_b, user_b);
    let ca = decimal(chat_a as int);
    let cb = decimal(chat_b as int);
    let ua = decimal(user_a as int);
    let ub = decimal(user_b as int);
    lemma_decimal_chars(chat_a as int);
    lemma_decimal_chars(chat_b as int);
    assert(ka[n + ca.len()] == ':');
    assert(kb[n + cb.len()] == ':');
    if ca.len() < cb.len() {
        assert(kb[n + ca.len()] == cb[ca.len() as int]);
    } else if cb.len() < ca.len() {
        assert(ka[n + cb.len()] == ca[cb.len() as int]);
    }
    assert(ca =~= ka.subrange(n, n + ca.len()));
    assert(cb =~= kb.subrange(n, n + cb.len()));
    law_decimal_is_injective(chat_a as int, chat_b as int);
    assert(ua =~= ka.skip(n + ca.len() + 1));
    assert(ub =~= kb.skip(n + cb.len() + 1));
    law_decimal_is_injective(user_a as int, user_b as int);
}

} // verus!
