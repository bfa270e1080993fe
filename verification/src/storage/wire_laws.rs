//! Laws on how commands are spelt and how answers are read.
use vstd::prelude::*;

use crate::error::ErrorView;
use crate::storage::redis::{
    acquire_vision_slot_step, any_reply, batch_error, check_chat_quota_step,
    check_user_cooldown_step, get_chat_dna_step, healthcheck_step, incr_episodic_counter_step,
    incr_facts_counter_step, int_reply, len_event_candidates_step, list_reply,
    pop_event_candidates_step, push_event_candidate_step, record_unique_event_hash_step,
    release_vision_slot_step, reset_episodic_counter_step, reset_facts_counter_step, text_reply,
    wire, CommandView, DatumView, OutcomeView, ReplyView, StepView,
};
use crate::text::decimal;

verus! {

/// A command goes over the wire as its name, the key it is about, and what it needs
/// besides.
pub proof fn law_commands_are_spelt_out(
    key: Seq<char>,
    value: Seq<char>,
    from: i64,
    to: i64,
    secs: i64,
)
    ensures
        wire(CommandView::Ping) == seq!["PING"@],
        wire(CommandView::Get { key }) == seq!["GET"@, key],
        wire(CommandView::Ttl { key }) == seq!["TTL"@, key],
        wire(CommandView::Incr { key }) == seq!["INCR"@, key],
        wire(CommandView::Decr { key }) == seq!["DECR"@, key],
        wire(CommandView::Del { key }) == seq!["DEL"@, key],
        wire(CommandView::Llen { key }) == seq!["LLEN"@, key],
        wire(CommandView::Lpush { key, value }) == seq!["LPUSH"@, key, value],
        wire(CommandView::Rpush { key, value }) == seq!["RPUSH"@, key, value],
        wire(CommandView::Sadd { key, member: value }) == seq!["SADD"@, key, value],
        wire(CommandView::Expire { key, seconds: secs }) == seq![
            "EXPIRE"@,
            key,
            decimal(secs as int),
        ],
        wire(CommandView::Ltrim { key, start: from, stop: to }) == seq![
            "LTRIM"@,
            key,
            decimal(from as int),
            decimal(to as int),
        ],
        wire(CommandView::Lrange { key, start: from, stop: to }) == seq![
            "LRANGE"@,
            key,
            decimal(from as int),
            decimal(to as int),
        ],
        wire(CommandView::Lset { key, index: from, value }) == seq![
            "LSET"@,
            key,
            decimal(from as int),
            value,
        ],
{
}

/// A value is stored under its key, with `NX` where it must not be there yet and with
/// the seconds it is kept for where there are any.
pub proof fn law_stores_are_spelt_out(key: Seq<char>, text: Seq<char>, i: i64, secs: u64)
    ensures
        ({
            let datum = DatumView::Text(text);
            let ex = Some(secs);
            let kept = decimal(secs as int);
            &&& wire(CommandView::Store { key, datum, nx: false, ex: None }) == seq![
                "SET"@,
                key,
                text,
            ]
            &&& wire(CommandView::Store { key, datum, nx: true, ex: None }) == seq![
                "SET"@,
                key,
                text,
                "NX"@,
            ]
            &&& wire(CommandView::Store { key, datum, nx: false, ex }) == seq![
                "SET"@,
                key,
                text,
                "EX"@,
                kept,
            ]
            &&& wire(CommandView::Store { key, datum, nx: true, ex }) == seq![
                "SET"@,
                key,
                text,
                "NX"@,
                "EX"@,
                kept,
            ]
            &&& wire(CommandView::Store { key, datum: DatumView::Int(i), nx: false, ex: None })
                == seq!["SET"@, key, decimal(i as int)]
        }),
{
    let datum = DatumView::Text(text);
    let ex = Some(secs);
    let kept = decimal(secs as int);
    assert(wire(CommandView::Store { key, datum, nx: false, ex: None }) =~= seq![
        "SET"@,
        key,
        text,
    ]);
    assert(wire(CommandView::Store { key, datum, nx: true, ex: None }) =~= seq![
        "SET"@,
        key,
        text,
        "NX"@,
    ]);
    assert(wire(CommandView::Store { key, datum, nx: false, ex }) =~= seq![
        "SET"@,
        key,
        text,
        "EX"@,
        kept,
    ]);
    assert(wire(CommandView::Store { key, datum, nx: true, ex }) =~= seq![
        "SET"@,
        key,
        text,
        "NX"@,
        "EX"@,
        kept,
    ]);
    assert(wire(CommandView::Store { key, datum: DatumView::Int(i), nx: false, ex: None })
        =~= seq!["SET"@, key, decimal(i as int)]);
}

/// What the server answered first is what is read, where it is of the kind asked for; a
/// failure is told with what was being done.
pub proof fn law_answers_are_read(
    what: Seq<char>,
    e: Seq<char>,
    i: i64,
    text: Seq<char>,
    list: Seq<Seq<char>>,
    more: Seq<ReplyView>,
)
    ensures
        int_reply(OutcomeView::Replied(seq![ReplyView::Int(i)] + more), what) == Ok::<_, ErrorView>(
            i,
        ),
        text_reply(OutcomeView::Replied(seq![ReplyView::Bulk(text)] + more), what) == Ok::<
            _,
            ErrorView,
        >(Some(text)),
        text_reply(OutcomeView::Replied(seq![ReplyView::Status(text)] + more), what) == Ok::<
            _,
            ErrorView,
        >(Some(text)),
        text_reply(OutcomeView::Replied(seq![ReplyView::Nil] + more), what) == Ok::<_, ErrorView>(
            None::<Seq<char>>,
        ),
        list_reply(OutcomeView::Replied(seq![ReplyView::List(list)] + more), what) == Ok::<
            _,
            ErrorView,
        >(list),
        any_reply(OutcomeView::Replied(more), what) is Ok,
        forall|o: OutcomeView| !(o is Replied) ==> #[trigger] int_reply(o, what) is Err
            && text_reply(o, what) is Err && list_reply(o, what) is Err && any_reply(
            o,
            what,
        ) is Err,
        forall|o: OutcomeView| #[trigger] int_reply(o, what) is Err ==> int_reply(o, what)->Err_0
            == batch_error(o, what),
        batch_error(OutcomeView::NoConnection(e), what) == ErrorView::Redis("get conn: "@ + e),
        batch_error(OutcomeView::Failed(e), what) == ErrorView::Redis(what + ": "@ + e),
{
    assert((seq![ReplyView::Int(i)] + more)[0] == ReplyView::Int(i));
    assert((seq![ReplyView::Bulk(text)] + more)[0] == ReplyView::Bulk(text));
    assert((seq![ReplyView::Status(text)] + more)[0] == ReplyView::Status(text));
    assert((seq![ReplyView::Nil] + more)[0] == ReplyView::Nil);
    assert((seq![ReplyView::List(list)] + more)[0] == ReplyView::List(list));
}

/// The operation ends in an error that tells what was being done and what was reported.
pub open spec fn told_as<T>(step: StepView<T>, what: Seq<char>, e: Seq<char>) -> bool {
    step == StepView::<T>::Fail(ErrorView::Redis(what + ": "@ + e))
}

/// A batch that fails is told with what was being done and what was reported.
pub proof fn law_failed_batches_are_told(
    chat_id: i64,
    user_id: i64,
    secs: u32,
    text: Seq<char>,
    e: Seq<char>,
)
    requires
        secs > 0,
    ensures
        ({
            let seen = seq![OutcomeView::Failed(e)];
            &&& told_as(check_user_cooldown_step(user_id, secs, seen), "SET NX EX"@, e)
            &&& told_as(acquire_vision_slot_step(secs, seen), "INCR vision"@, e)
            &&& told_as(release_vision_slot_step(seen), "DECR vision"@, e)
            &&& told_as(check_chat_quota_step(chat_id, secs, seen), "INCR"@, e)
            &&& told_as(incr_episodic_counter_step(chat_id, seen), "INCR episodic counter"@, e)
            &&& told_as(reset_episodic_counter_step(chat_id, seen), "DEL episodic counter"@, e)
            &&& told_as(incr_facts_counter_step(chat_id, user_id, seen), "INCR facts counter"@, e)
            &&& told_as(reset_facts_counter_step(chat_id, user_id, seen), "DEL facts counter"@, e)
            &&& told_as(len_event_candidates_step(chat_id, seen), "LLEN event candidates"@, e)
            &&& told_as(push_event_candidate_step(chat_id, text, seen), "RPUSH event candidate"@, e)
            &&& told_as(pop_event_candidates_step(chat_id, seen), "pop event candidates"@, e)
            &&& told_as(
                record_unique_event_hash_step(chat_id, text, seen),
                "record unique event hash"@,
                e,
            )
            &&& told_as(healthcheck_step(seen), "PING"@, e)
            &&& told_as(get_chat_dna_step(chat_id, seen), "GET chat DNA"@, e)
        }),
{
}

/// An answer of another kind than the one asked for is no answer.
pub proof fn law_other_answers_are_errors(what: Seq<char>, replies: Seq<ReplyView>)
    ensures
        ({
            let o = OutcomeView::Replied(replies);
            let odd = ErrorView::Redis(what + ": "@ + "unexpected reply"@);
            &&& replies.len() == 0 || !(replies[0] is Int) ==> int_reply(o, what) == Err::<
                i64,
                _,
            >(odd)
            &&& replies.len() == 0 || replies[0] is Int || replies[0] is List ==> text_reply(
                o,
                what,
            ) == Err::<Option<Seq<char>>, _>(odd)
            &&& replies.len() == 0 || !(replies[0] is List) ==> list_reply(o, what) == Err::<
                Seq<Seq<char>>,
                _,
            >(odd)
        }),
{
}

} // verus!
