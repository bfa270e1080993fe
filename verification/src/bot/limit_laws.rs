//! What the two limits promise together.
use vstd::prelude::*;

use crate::bot::handlers::rate_limit_step;
use crate::config::RateLimitConfig;
use crate::error::ErrorView;
use crate::storage::laws::Ended;
use crate::storage::redis::{
    key_seq, CommandView, DatumView, OutcomeView, ReplyView, CHAT_QUOTA_WINDOW_SEC,
};
use crate::storage::server::{drive, lemma_one, Server, Stored};

verus! {

/// A check of both limits on the server.
pub open spec fn limit_call(
    s: Server,
    chat_id: i64,
    user_id: Option<i64>,
    cfg: RateLimitConfig,
) -> Ended<bool> {
    drive(
        |seen: Seq<OutcomeView>| rate_limit_step(chat_id, user_id, cfg, seen),
        s,
        Seq::empty(),
        3,
    )
}

/// A user who still has to wait is stopped, and takes nothing of the chat's quota: the
/// server stays as it was.
pub proof fn law_waiting_user_takes_no_quota(
    s: Server,
    chat_id: i64,
    user_id: i64,
    cfg: RateLimitConfig,
)
    requires
        cfg.user_cooldown_sec > 0,
        s.get(key_seq("rl:user:"@, user_id, ""@)) is Some,
    ensures
        limit_call(s, chat_id, Some(user_id), cfg) == Some((s, Ok::<bool, ErrorView>(false))),
{
    reveal_with_fuel(drive, 3);
    lemma_one(
        s,
        CommandView::Store {
            key: key_seq("rl:user:"@, user_id, ""@),
            datum: DatumView::Int(1),
            nx: true,
            ex: Some(cfg.user_cooldown_sec as u64),
        },
    );
}

/// A user who does not have to wait is counted in the chat's quota, and gets through
/// exactly while the count is within it.
pub proof fn law_free_user_is_counted(
    s: Server,
    chat_id: i64,
    user_id: i64,
    cfg: RateLimitConfig,
)
    requires
        cfg.user_cooldown_sec > 0,
        cfg.chat_max_per_min > 0,
        s.get(key_seq("rl:user:"@, user_id, ""@)) is None,
        s.counts(key_seq("rl:chat:"@, chat_id, ""@)),
    ensures
        ({
            let user = key_seq("rl:user:"@, user_id, ""@);
            let chat = key_seq("rl:chat:"@, chat_id, ""@);
            let n = s.count(chat) + 1;
            let t = s.put(user, Stored::Int(1)).expiring(user, cfg.user_cooldown_sec as int);
            let u = t.put(chat, Stored::Int(n as i64));
            let v = if n == 1 {
                u.expiring(chat, CHAT_QUOTA_WINDOW_SEC as int)
            } else {
                u
            };
            limit_call(s, chat_id, Some(user_id), cfg) == Some(
                (v, Ok::<bool, ErrorView>(n <= cfg.chat_max_per_min)),
            )
        }),
{
    let user = key_seq("rl:user:"@, user_id, ""@);
    let chat = key_seq("rl:chat:"@, chat_id, ""@);
    reveal_strlit("rl:user:");
    reveal_strlit("rl:chat:");
    assert(user[3] == 'u' && chat[3] == 'c');
    let n = s.count(chat) + 1;
    let t = s.put(user, Stored::Int(1)).expiring(user, cfg.user_cooldown_sec as int);
    let u = t.put(chat, Stored::Int(n as i64));
    reveal_with_fuel(drive, 5);
    lemma_one(
        s,
        CommandView::Store {
            key: user,
            datum: DatumView::Int(1),
            nx: true,
            ex: Some(cfg.user_cooldown_sec as u64),
        },
    );
    lemma_one(t, CommandView::Incr { key: chat });
    lemma_one(u, CommandView::Expire { key: chat, seconds: CHAT_QUOTA_WINDOW_SEC });
    let e0 = OutcomeView::Replied(seq![ReplyView::Status("OK"@)]);
    let e1 = OutcomeView::Replied(seq![ReplyView::Int(n as i64)]);
    let e2 = OutcomeView::Replied(seq![ReplyView::Int(1)]);
    let s1 = Seq::<OutcomeView>::empty().push(e0);
    let s2 = s1.push(e1);
    let s3 = s2.push(e2);
    assert(s1[0] == e0 && s1.skip(1) =~= Seq::empty());
    assert(s2[0] == e0 && s2.skip(1) =~= seq![e1]);
    assert(s3[0] == e0 && s3.skip(1) =~= seq![e1, e2]);
}

/// Where nobody has to wait, because the message has no sender or the cooldown is
/// switched off, the chat's quota alone decides: the message is counted in it and gets
/// through exactly while the count is within it, and no cooldown is remembered.
pub proof fn law_without_cooldown_the_quota_decides(
    s: Server,
    chat_id: i64,
    user_id: Option<i64>,
    cfg: RateLimitConfig,
)
    requires
        user_id is None || cfg.user_cooldown_sec == 0,
        cfg.chat_max_per_min > 0,
        s.counts(key_seq("rl:chat:"@, chat_id, ""@)),
    ensures
        ({
            let chat = key_seq("rl:chat:"@, chat_id, ""@);
            let n = s.count(chat) + 1;
            let t = s.put(chat, Stored::Int(n as i64));
            let u = if n == 1 {
                t.expiring(chat, CHAT_QUOTA_WINDOW_SEC as int)
            } else {
                t
            };
            limit_call(s, chat_id, user_id, cfg) == Some(
                (u, Ok::<bool, ErrorView>(n <= cfg.chat_max_per_min)),
            )
        }),
{
    let chat = key_seq("rl:chat:"@, chat_id, ""@);
    let n = s.count(chat) + 1;
    let t = s.put(chat, Stored::Int(n as i64));
    reveal_with_fuel(drive, 4);
    lemma_one(s, CommandView::Incr { key: chat });
    lemma_one(t, CommandView::Expire { key: chat, seconds: CHAT_QUOTA_WINDOW_SEC });
}

/// Where the quota is switched off a user who does not have to wait gets through, and
/// only the start of the cooldown is remembered.
pub proof fn law_without_quota_the_cooldown_decides(
    s: Server,
    chat_id: i64,
    user_id: i64,
    cfg: RateLimitConfig,
)
    requires
        cfg.user_cooldown_sec > 0,
        cfg.chat_max_per_min == 0,
        s.get(key_seq("rl:user:"@, user_id, ""@)) is None,
    ensures
        ({
            let user = key_seq("rl:user:"@, user_id, ""@);
            let t = s.put(user, Stored::Int(1)).expiring(user, cfg.user_cooldown_sec as int);
            limit_call(s, chat_id, Some(user_id), cfg) == Some((t, Ok::<bool, ErrorView>(true)))
        }),
{
    reveal_with_fuel(drive, 3);
    lemma_one(
        s,
        CommandView::Store {
            key: key_seq("rl:user:"@, user_id, ""@),
            datum: DatumView::Int(1),
            nx: true,
            ex: Some(cfg.user_cooldown_sec as u64),
        },
    );
}

/// Where neither limit applies the message gets through and nothing is remembered.
pub proof fn law_without_limits_all_get_through(
    s: Server,
    chat_id: i64,
    user_id: Option<i64>,
    cfg: RateLimitConfig,
)
    requires
        user_id is None || cfg.user_cooldown_sec == 0,
        cfg.chat_max_per_min == 0,
    ensures
        limit_call(s, chat_id, user_id, cfg) == Some((s, Ok::<bool, ErrorView>(true))),
{
    reveal_with_fuel(drive, 2);
}

} // verus!
