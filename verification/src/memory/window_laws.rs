//! What the operations on the window come to on the server, over several calls.
use vstd::prelude::*;

use crate::error::ErrorView;
use crate::memory::working::{
    find_entry, first_corrupt, get_window_step, patch_media_desc_step, push_commands,
    push_step, reversed_entries, window_key, with_desc, DecodedView, WindowEventView,
    WindowStepView, WorkingMessageView,
};
use crate::storage::redis::{CommandView, OutcomeView, ReplyView, DAY_SEC, LIST_END};
use crate::storage::server::{exec, exec_all, lemma_one, lemma_two, list_range, Server, Stored};

verus! {

/// How entries are written as texts and read back.
pub struct Codec {
    pub write: spec_fn(WorkingMessageView) -> Seq<char>,
    pub read: spec_fn(Seq<char>) -> DecodedView,
}

impl Codec {
    /// What was written is read back as it was.
    pub open spec fn faithful(self) -> bool {
        forall|m: WorkingMessageView| #[trigger]
            (self.read)((self.write)(m)) == DecodedView::Entry(m)
    }

    /// Texts, each read by itself.
    pub open spec fn read_all(self, texts: Seq<Seq<char>>) -> Seq<DecodedView> {
        Seq::new(texts.len(), |i: int| (self.read)(texts[i]))
    }
}

/// Runs an operation on the window for at most `fuel` steps.
pub open spec fn drive_window<V>(
    op: spec_fn(Seq<WindowEventView>) -> WindowStepView<V>,
    codec: Codec,
    s: Server,
    seen: Seq<WindowEventView>,
    fuel: nat,
) -> Option<(Server, Result<V, ErrorView>)>
    decreases fuel,
{
    match op(seen) {
        WindowStepView::Done(v) => Some((s, Ok(v))),
        WindowStepView::Fail(e) => Some((s, Err(e))),
        WindowStepView::Run(cs) => if fuel == 0 {
            None
        } else {
            match exec_all(s, cs) {
                None => None,
                Some((t, rs)) => drive_window(
                    op,
                    codec,
                    t,
                    seen.push(WindowEventView::Ran(OutcomeView::Replied(rs))),
                    (fuel - 1) as nat,
                ),
            }
        },
        WindowStepView::Decode(texts) => if fuel == 0 {
            None
        } else {
            drive_window(
                op,
                codec,
                s,
                seen.push(WindowEventView::Read(codec.read_all(texts))),
                (fuel - 1) as nat,
            )
        },
        WindowStepView::Encode(m) => if fuel == 0 {
            None
        } else {
            drive_window(
                op,
                codec,
                s,
                seen.push(WindowEventView::Wrote((codec.write)(m))),
                (fuel - 1) as nat,
            )
        },
    }
}

/// Adding an entry on the server.
pub open spec fn push_call(
    codec: Codec,
    s: Server,
    chat_id: i64,
    msg: WorkingMessageView,
    window_size: u32,
    ttl_days: u32,
) -> Option<(Server, Result<(), ErrorView>)> {
    drive_window(
        |seen: Seq<WindowEventView>| push_step(chat_id, msg, window_size, ttl_days, seen),
        codec,
        s,
        Seq::empty(),
        4,
    )
}

/// Reading the window on the server.
pub open spec fn get_call(codec: Codec, s: Server, chat_id: i64, n: u32) -> Option<
    (Server, Result<Seq<WorkingMessageView>, ErrorView>),
> {
    drive_window(
        |seen: Seq<WindowEventView>| get_window_step(chat_id, n, seen),
        codec,
        s,
        Seq::empty(),
        4,
    )
}

/// Describing the media of an entry on the server.
pub open spec fn patch_call(
    codec: Codec,
    s: Server,
    chat_id: i64,
    tg_message_id: i64,
    desc: Seq<char>,
) -> Option<(Server, Result<bool, ErrorView>)> {
    drive_window(
        |seen: Seq<WindowEventView>| patch_media_desc_step(chat_id, tg_message_id, desc, seen),
        codec,
        s,
        Seq::empty(),
        4,
    )
}

/// The first `n` items of `l`, or all of it where it is shorter.
pub open spec fn at_most<A>(l: Seq<A>, n: int) -> Seq<A> {
    if l.len() <= n {
        l
    } else {
        l.take(n)
    }
}

/// The last `n` items of `l`, or all of it where it is shorter.
pub open spec fn last_of<A>(l: Seq<A>, n: int) -> Seq<A> {
    if l.len() <= n {
        l
    } else {
        l.skip(l.len() - n)
    }
}

/// Adding an entry puts it at the head, keeps the newest `window_size` entries and
/// gives the window its whole life anew.
pub proof fn law_push(
    codec: Codec,
    s: Server,
    chat_id: i64,
    msg: WorkingMessageView,
    window_size: u32,
    ttl_days: u32,
)
    requires
        window_size > 0,
        ttl_days > 0,
        s.lists(window_key(chat_id)),
        s.list(window_key(chat_id)).len() < i64::MAX - 1,
    ensures
        ({
            let key = window_key(chat_id);
            let l = at_most(seq![(codec.write)(msg)] + s.list(key), window_size as int);
            push_call(codec, s, chat_id, msg, window_size, ttl_days) == Some(
                (
                    s.put(key, Stored::List(l)).expiring(key, ttl_days * DAY_SEC),
                    Ok::<(), ErrorView>(()),
                ),
            )
        }),
{
    let key = window_key(chat_id);
    let payload = (codec.write)(msg);
    let cs = push_commands(chat_id, payload, window_size, ttl_days);
    let full = seq![payload] + s.list(key);
    let l = at_most(full, window_size as int);
    reveal_with_fuel(drive_window, 4);
    assert(cs.drop_last() =~= seq![cs[0], cs[1]]);
    lemma_two(s, cs[0], cs[1]);
    assert(list_range(full, 0, (window_size - 1) as i64) =~= l);
    assert(s.put(key, Stored::List(full)).put(key, Stored::List(l)) =~= s.put(
        key,
        Stored::List(l),
    ));
    assert(exec_all(s, cs) is Some);
    let rs = (exec_all(s, cs)->0).1;
    let seen = Seq::<WindowEventView>::empty().push(WindowEventView::Wrote(payload));
    assert(seen[0] == WindowEventView::Wrote(payload));
    let last = seen.push(WindowEventView::Ran(OutcomeView::Replied(rs)));
    assert(last[0] == WindowEventView::Wrote(payload));
}

/// A window of size 0 keeps nothing: adding to it leaves the server as it was.
pub proof fn law_push_zero_is_off(
    codec: Codec,
    s: Server,
    chat_id: i64,
    msg: WorkingMessageView,
    ttl_days: u32,
)
    ensures
        push_call(codec, s, chat_id, msg, 0, ttl_days) == Some((s, Ok::<(), ErrorView>(()))),
{
}

proof fn lemma_no_corrupt(d: Seq<DecodedView>)
    requires
        forall|i: int| 0 <= i < d.len() ==> #[trigger] d[i] is Entry,
    ensures
        first_corrupt(d) is None,
    decreases d.len(),
{
    if d.len() > 0 {
        assert(d[0] is Entry);
        assert forall|i: int| 0 <= i < d.drop_first().len() implies #[trigger] d.drop_first()[i]
            is Entry by {
            assert(d.drop_first()[i] == d[i + 1]);
        }
        lemma_no_corrupt(d.drop_first());
    }
}

/// Reading gives the newest `n` entries, the oldest of them first, and changes
/// nothing.
pub proof fn law_get(codec: Codec, s: Server, chat_id: i64, n: u32)
    requires
        n > 0,
        s.lists(window_key(chat_id)),
        forall|i: int|
            0 <= i < s.list(window_key(chat_id)).len() ==> #[trigger] (codec.read)(
                s.list(window_key(chat_id))[i],
            ) is Entry,
    ensures
        get_call(codec, s, chat_id, n) == Some(
            (
                s,
                Ok::<Seq<WorkingMessageView>, ErrorView>(
                    reversed_entries(
                        codec.read_all(at_most(s.list(window_key(chat_id)), n as int)),
                    ),
                ),
            ),
        ),
{
    let key = window_key(chat_id);
    let l = s.list(key);
    let c = CommandView::Lrange { key, start: 0, stop: (n - 1) as i64 };
    reveal_with_fuel(drive_window, 4);
    lemma_one(s, c);
    assert(list_range(l, 0, (n - 1) as i64) =~= at_most(l, n as int));
    let texts = at_most(l, n as int);
    let d = codec.read_all(texts);
    assert forall|i: int| 0 <= i < d.len() implies #[trigger] d[i] is Entry by {
        assert(d[i] == (codec.read)(l[i]));
    }
    lemma_no_corrupt(d);
    let ran = WindowEventView::Ran(OutcomeView::Replied(seq![ReplyView::List(texts)]));
    let seen = Seq::<WindowEventView>::empty().push(ran);
    assert(seen[0] == ran);
    let last = seen.push(WindowEventView::Read(d));
    assert(last[0] == ran);
}

/// A chat without a window has no entries.
pub proof fn law_get_empty(codec: Codec, s: Server, chat_id: i64, n: u32)
    requires
        s.get(window_key(chat_id)) is None,
    ensures
        get_call(codec, s, chat_id, n) == Some(
            (s, Ok::<Seq<WorkingMessageView>, ErrorView>(Seq::empty())),
        ),
{
    if n > 0 {
        law_get(codec, s, chat_id, n);
        assert(reversed_entries(
            codec.read_all(at_most(s.list(window_key(chat_id)), n as int)),
        ) =~= Seq::empty());
    }
}

/// The server after adding `msgs`, one after the other.
pub open spec fn pushes(
    codec: Codec,
    s: Server,
    chat_id: i64,
    msgs: Seq<WorkingMessageView>,
    window_size: u32,
    ttl_days: u32,
) -> Server
    decreases msgs.len(),
{
    if msgs.len() == 0 {
        s
    } else {
        (push_call(
            codec,
            pushes(codec, s, chat_id, msgs.drop_last(), window_size, ttl_days),
            chat_id,
            msgs.last(),
            window_size,
            ttl_days,
        )->0).0
    }
}

/// The texts of `msgs`, the last one first.
pub open spec fn newest_first(codec: Codec, msgs: Seq<WorkingMessageView>) -> Seq<Seq<char>> {
    Seq::new(msgs.len(), |i: int| (codec.write)(msgs[msgs.len() - 1 - i]))
}

proof fn lemma_pushes(
    codec: Codec,
    s: Server,
    chat_id: i64,
    msgs: Seq<WorkingMessageView>,
    window_size: u32,
    ttl_days: u32,
)
    requires
        window_size > 0,
        ttl_days > 0,
        s.get(window_key(chat_id)) is None,
    ensures
        ({
            let key = window_key(chat_id);
            let t = pushes(codec, s, chat_id, msgs, window_size, ttl_days);
            &&& t.lists(key)
            &&& t.list(key) == at_most(newest_first(codec, msgs), window_size as int)
            &&& msgs.len() > 0 ==> t.ttl == s.ttl.insert(key, ttl_days * DAY_SEC)
        }),
    decreases msgs.len(),
{
    let key = window_key(chat_id);
    let w = window_size as int;
    if msgs.len() == 0 {
        assert(at_most(newest_first(codec, msgs), w) =~= Seq::empty());
    } else {
        let init = msgs.drop_last();
        lemma_pushes(codec, s, chat_id, init, window_size, ttl_days);
        let t = pushes(codec, s, chat_id, init, window_size, ttl_days);
        law_push(codec, t, chat_id, msgs.last(), window_size, ttl_days);
        assert(at_most(seq![(codec.write)(msgs.last())] + t.list(key), w) =~= at_most(
            newest_first(codec, msgs),
            w,
        ));
        let u = pushes(codec, s, chat_id, msgs, window_size, ttl_days);
        assert(u.ttl =~= s.ttl.insert(key, ttl_days * DAY_SEC));
    }
}

/// After adding messages to an empty window, reading gives the newest of them, as
/// many as asked for and as the window holds, in the order in which they were
/// added. The window lives for the days given from the last one on.
pub proof fn law_pushes_then_get(
    codec: Codec,
    s: Server,
    chat_id: i64,
    msgs: Seq<WorkingMessageView>,
    window_size: u32,
    ttl_days: u32,
    n: u32,
)
    requires
        codec.faithful(),
        window_size > 0,
        ttl_days > 0,
        n > 0,
        s.get(window_key(chat_id)) is None,
    ensures
        ({
            let t = pushes(codec, s, chat_id, msgs, window_size, ttl_days);
            let kept = if window_size <= n { window_size as int } else { n as int };
            &&& get_call(codec, t, chat_id, n) == Some(
                (t, Ok::<Seq<WorkingMessageView>, ErrorView>(last_of(msgs, kept))),
            )
            &&& msgs.len() > 0 ==> t.ttl == s.ttl.insert(window_key(chat_id), ttl_days * DAY_SEC)
        }),
{
    let key = window_key(chat_id);
    let t = pushes(codec, s, chat_id, msgs, window_size, ttl_days);
    let kept = if window_size <= n { window_size as int } else { n as int };
    lemma_pushes(codec, s, chat_id, msgs, window_size, ttl_days);
    let l = t.list(key);
    assert forall|i: int| 0 <= i < l.len() implies #[trigger] (codec.read)(l[i]) is Entry by {
        assert(l[i] == (codec.write)(msgs[msgs.len() - 1 - i]));
    }
    law_get(codec, t, chat_id, n);
    let texts = at_most(l, n as int);
    let got = reversed_entries(codec.read_all(texts));
    assert forall|i: int| 0 <= i < got.len() implies got[i] == last_of(msgs, kept)[i] by {
        let j = texts.len() - 1 - i;
        assert(texts[j] == (codec.write)(msgs[msgs.len() - 1 - j]));
        assert((codec.read)(texts[j]) == DecodedView::Entry(msgs[msgs.len() - 1 - j]));
    }
    assert(got =~= last_of(msgs, kept));
}

/// Describing the media of an entry that the window has rewrites that one entry,
/// in its place, with nothing but the description changed.
pub proof fn law_patch(
    codec: Codec,
    s: Server,
    chat_id: i64,
    tg_message_id: i64,
    desc: Seq<char>,
    at: int,
)
    requires
        s.lists(window_key(chat_id)),
        find_entry(codec.read_all(s.list(window_key(chat_id))), tg_message_id, 0) == Some(at),
        0 <= at < s.list(window_key(chat_id)).len(),
    ensures
        ({
            let key = window_key(chat_id);
            let l = s.list(key);
            let m = (codec.read)(l[at])->Entry_0;
            patch_call(codec, s, chat_id, tg_message_id, desc) == Some(
                (
                    s.put(
                        key,
                        Stored::List(l.update(at, (codec.write)(with_desc(m, desc)))),
                    ),
                    Ok::<bool, ErrorView>(true),
                ),
            )
        }),
{
    let key = window_key(chat_id);
    let l = s.list(key);
    let d = codec.read_all(l);
    let m = d[at]->Entry_0;
    let payload = (codec.write)(with_desc(m, desc));
    let range = CommandView::Lrange { key, start: 0, stop: LIST_END };
    let set = CommandView::Lset { key, index: at as i64, value: payload };
    reveal_with_fuel(drive_window, 6);
    lemma_one(s, range);
    assert(list_range(l, 0, LIST_END) =~= l);
    let e0 = WindowEventView::Ran(OutcomeView::Replied(seq![ReplyView::List(l)]));
    let e1 = WindowEventView::Read(d);
    let e2 = WindowEventView::Wrote(payload);
    let s1 = Seq::<WindowEventView>::empty().push(e0);
    let s2 = s1.push(e1);
    let s3 = s2.push(e2);
    assert(s1[0] == e0);
    assert(s2[0] == e0 && s2[1] == e1);
    assert(s3[0] == e0 && s3[1] == e1 && s3[2] == e2);
    lemma_one(s, set);
    assert(exec(s, set) is Some);
    let e3 = WindowEventView::Ran(OutcomeView::Replied(seq![(exec(s, set)->0).1]));
    let s4 = s3.push(e3);
    assert(s4[0] == e0 && s4[1] == e1 && s4[2] == e2 && s4[3] == e3);
}

/// Without an entry of that message nothing changes and the answer is `false`.
pub proof fn law_patch_unknown(
    codec: Codec,
    s: Server,
    chat_id: i64,
    tg_message_id: i64,
    desc: Seq<char>,
)
    requires
        s.lists(window_key(chat_id)),
        find_entry(codec.read_all(s.list(window_key(chat_id))), tg_message_id, 0) is None,
    ensures
        patch_call(codec, s, chat_id, tg_message_id, desc) == Some(
            (s, Ok::<bool, ErrorView>(false)),
        ),
{
    let key = window_key(chat_id);
    let l = s.list(key);
    reveal_with_fuel(drive_window, 4);
    lemma_one(s, CommandView::Lrange { key, start: 0, stop: LIST_END });
    assert(list_range(l, 0, LIST_END) =~= l);
    let e0 = WindowEventView::Ran(OutcomeView::Replied(seq![ReplyView::List(l)]));
    let s1 = Seq::<WindowEventView>::empty().push(e0);
    let s2 = s1.push(WindowEventView::Read(codec.read_all(l)));
    assert(s1[0] == e0);
    assert(s2[0] == e0);
}

/// The entry that is described is the newest one of that message: it bears its number,
/// and none before it does.
pub proof fn law_the_right_entry_is_described(d: Seq<DecodedView>, id: i64, from: int)
    requires
        0 <= from <= d.len(),
    ensures
        match find_entry(d, id, from) {
            Some(at) => {
                &&& from <= at < d.len()
                &&& d[at] is Entry
                &&& d[at]->Entry_0.tg_message_id == Some(id)
                &&& forall|k: int|
                    from <= k < at ==> !((#[trigger] d[k]) is Entry
                        && d[k]->Entry_0.tg_message_id == Some(id))
            },
            None => forall|k: int|
                from <= k < d.len() ==> !((#[trigger] d[k]) is Entry
                    && d[k]->Entry_0.tg_message_id == Some(id)),
        },
    decreases d.len() - from,
{
    if from < d.len() {
        law_the_right_entry_is_described(d, id, from + 1);
    }
}

/// Describing an entry changes its description and nothing else.
pub proof fn law_only_the_description_changes(m: WorkingMessageView, desc: Seq<char>)
    ensures
        ({
            let n = with_desc(m, desc);
            &&& n.media_desc == Some(desc)
            &&& n.user_id == m.user_id
            &&& n.username == m.username
            &&& n.text == m.text
            &&& n.ts == m.ts
            &&& n.tg_message_id == m.tg_message_id
        }),
{
}

/// After messages with different numbers were added to an empty window and the media of
/// one that it still holds were described, reading gives the same messages in the same
/// order, that one with its description and the others as they were.
pub proof fn law_a_description_shows_in_the_window(
    codec: Codec,
    s: Server,
    chat_id: i64,
    msgs: Seq<WorkingMessageView>,
    window_size: u32,
    ttl_days: u32,
    at: int,
    id: i64,
    desc: Seq<char>,
)
    requires
        codec.faithful(),
        window_size > 0,
        ttl_days > 0,
        s.get(window_key(chat_id)) is None,
        msgs.len() <= i64::MAX,
        0 <= at < msgs.len(),
        at >= msgs.len() - window_size,
        msgs[at].tg_message_id == Some(id),
        forall|k: int|
            0 <= k < msgs.len() && k != at ==> (#[trigger] msgs[k]).tg_message_id != Some(id),
    ensures
        ({
            let t = pushes(codec, s, chat_id, msgs, window_size, ttl_days);
            let patched = patch_call(codec, t, chat_id, id, desc);
            let shown = last_of(
                msgs.update(
                    at,
                    WorkingMessageView {
                        user_id: msgs[at].user_id,
                        username: msgs[at].username,
                        text: msgs[at].text,
                        media_desc: Some(desc),
                        ts: msgs[at].ts,
                        tg_message_id: Some(id),
                    },
                ),
                window_size as int,
            );
            &&& patched is Some
            &&& (patched->0).1 == Ok::<bool, ErrorView>(true)
            &&& get_call(codec, (patched->0).0, chat_id, window_size) == Some(
                ((patched->0).0, Ok::<Seq<WorkingMessageView>, ErrorView>(shown)),
            )
        }),
{
    let key = window_key(chat_id);
    let w = window_size as int;
    let t = pushes(codec, s, chat_id, msgs, window_size, ttl_days);
    lemma_pushes(codec, s, chat_id, msgs, window_size, ttl_days);
    let l = t.list(key);
    let d = codec.read_all(l);
    let place = msgs.len() - 1 - at;
    assert forall|i: int| 0 <= i < l.len() implies #[trigger] d[i] == DecodedView::Entry(
        msgs[msgs.len() - 1 - i],
    ) by {
        assert(l[i] == (codec.write)(msgs[msgs.len() - 1 - i]));
    }
    law_the_right_entry_is_described(d, id, 0);
    assert(d[place] == DecodedView::Entry(msgs[at]));
    match find_entry(d, id, 0) {
        Some(found) => {
            assert(d[found] == DecodedView::Entry(msgs[msgs.len() - 1 - found]));
            assert(found == place);
        },
        None => {
            assert(!(d[place] is Entry && d[place]->Entry_0.tg_message_id == Some(id)));
        },
    }
    law_patch(codec, t, chat_id, id, desc, place);
    let new = with_desc(msgs[at], desc);
    let u = (patch_call(codec, t, chat_id, id, desc)->0).0;
    let m = u.list(key);
    assert((codec.read)(l[place]) == d[place]);
    assert(m =~= l.update(place, (codec.write)(new)));
    let now = msgs.update(at, new);
    assert forall|i: int| 0 <= i < m.len() implies #[trigger] (codec.read)(m[i])
        == DecodedView::Entry(now[msgs.len() - 1 - i]) by {
        if i == place {
            assert(m[i] == (codec.write)(new));
        } else {
            assert(m[i] == l[i]);
            assert(d[i] == (codec.read)(l[i]));
        }
    }
    law_get(codec, u, chat_id, window_size);
    assert(at_most(m, w) =~= m);
    let got = reversed_entries(codec.read_all(m));
    let shown = last_of(now, w);
    assert forall|i: int| 0 <= i < got.len() implies got[i] == shown[i] by {
        let j = m.len() - 1 - i;
        assert((codec.read)(m[j]) == DecodedView::Entry(now[msgs.len() - 1 - j]));
    }
    assert(got =~= shown);
}

} // verus!
