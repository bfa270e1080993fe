//! The working memory: the last messages of a chat, kept as a list in Redis.
//!
//! An entry is stored as a text. Turning an entry into its text and back is left
//! to the caller: the operations ask for it as one of their steps.
use vstd::prelude::*;

use crate::error::{Error, ErrorView};
use crate::storage::redis::{
    any_reply, expect_any, expect_list, key_seq, list_reply, numbered_key, Command, CommandView,
    Outcome, OutcomeView, DAY_SEC, LIST_END,
};
use crate::text::copy_opt;

verus! {

/// One entry of a chat's window.
pub struct WorkingMessage {
    pub user_id: i64,
    pub username: Option<String>,
    pub text: String,
    pub media_desc: Option<String>,
    pub ts: i64,
    /// The id of the message in Telegram; entries from before it was kept have none.
    pub tg_message_id: Option<i64>,
}

/// An entry as a mathematical value.
#[verifier::ext_equal]
pub struct WorkingMessageView {
    pub user_id: i64,
    pub username: Option<Seq<char>>,
    pub text: Seq<char>,
    pub media_desc: Option<Seq<char>>,
    pub ts: i64,
    pub tg_message_id: Option<i64>,
}

impl DeepView for WorkingMessage {
    type V = WorkingMessageView;

    open spec fn deep_view(&self) -> WorkingMessageView {
        WorkingMessageView {
            user_id: self.user_id,
            username: self.username.deep_view(),
            text: self.text@,
            media_desc: self.media_desc.deep_view(),
            ts: self.ts,
            tg_message_id: self.tg_message_id,
        }
    }
}

impl WorkingMessage {
    /// A copy of the entry.
    pub fn copy(&self) -> (r: WorkingMessage)
        ensures
            r == *self,
    {
        WorkingMessage {
            user_id: self.user_id,
            username: copy_opt(&self.username),
            text: self.text.clone(),
            media_desc: copy_opt(&self.media_desc),
            ts: self.ts,
            tg_message_id: self.tg_message_id,
        }
    }
}

/// What a stored text was read as.
pub enum Decoded {
    Entry(WorkingMessage),
    /// The text is no entry; why not.
    Corrupt(String),
}

/// What a stored text was read as, as a mathematical value.
#[verifier::ext_equal]
pub enum DecodedView {
    Entry(WorkingMessageView),
    Corrupt(Seq<char>),
}

/// What happened since the last step.
pub enum WindowEvent {
    /// A batch was run.
    Ran(Outcome),
    /// Texts were read.
    Read(Vec<Decoded>),
    /// An entry was written as a text.
    Wrote(String),
    /// An entry could not be written as a text.
    NotWritten(String),
}

/// What happened, as a mathematical value.
#[verifier::ext_equal]
pub enum WindowEventView {
    Ran(OutcomeView),
    Read(Seq<DecodedView>),
    Wrote(Seq<char>),
    NotWritten(Seq<char>),
}

/// What an operation on the window does next.
pub enum WindowStep<T> {
    /// Run these commands as one batch.
    Run(Vec<Command>),
    /// Read these texts, each by itself.
    Decode(Vec<String>),
    /// Write this entry as a text.
    Encode(WorkingMessage),
    /// The operation ended with this value.
    Done(T),
    /// The operation failed.
    Fail(Error),
}

/// A step as a mathematical value.
#[verifier::ext_equal]
pub enum WindowStepView<V> {
    Run(Seq<CommandView>),
    Decode(Seq<Seq<char>>),
    Encode(WorkingMessageView),
    Done(V),
    Fail(ErrorView),
}

impl DeepView for Decoded {
    type V = DecodedView;

    open spec fn deep_view(&self) -> DecodedView {
        match self {
            Decoded::Entry(m) => DecodedView::Entry(m.deep_view()),
            Decoded::Corrupt(e) => DecodedView::Corrupt(e@),
        }
    }
}

impl DeepView for WindowEvent {
    type V = WindowEventView;

    open spec fn deep_view(&self) -> WindowEventView {
        match self {
            WindowEvent::Ran(o) => WindowEventView::Ran(o.deep_view()),
            WindowEvent::Read(d) => WindowEventView::Read(d.deep_view()),
            WindowEvent::Wrote(t) => WindowEventView::Wrote(t@),
            WindowEvent::NotWritten(e) => WindowEventView::NotWritten(e@),
        }
    }
}

impl<T: DeepView> DeepView for WindowStep<T> {
    type V = WindowStepView<T::V>;

    open spec fn deep_view(&self) -> WindowStepView<T::V> {
        match self {
            WindowStep::Run(c) => WindowStepView::Run(c.deep_view()),
            WindowStep::Decode(t) => WindowStepView::Decode(t.deep_view()),
            WindowStep::Encode(m) => WindowStepView::Encode(m.deep_view()),
            WindowStep::Done(v) => WindowStepView::Done(v.deep_view()),
            WindowStep::Fail(e) => WindowStepView::Fail(e.deep_view()),
        }
    }
}

/// The key of a chat's window.
pub open spec fn window_key(chat_id: i64) -> Seq<char> {
    key_seq("chat:"@, chat_id, ":window"@)
}

/// The error for an event that does not answer the last step.
pub open spec fn out_of_turn() -> ErrorView {
    ErrorView::Other("event out of turn"@)
}

/// The key of a chat's window.
pub fn key(chat_id: i64) -> (r: String)
    ensures
        r@ == window_key(chat_id),
{
    numbered_key("chat:", chat_id, ":window")
}

fn unexpected<T: DeepView>() -> (r: WindowStep<T>)
    ensures
        r.deep_view() == WindowStepView::<T::V>::Fail(out_of_turn()),
{
    WindowStep::Fail(Error::Other("event out of turn".to_owned()))
}

/// The batch that puts a text at the head of the window, cuts the window to size
/// and renews its life.
pub open spec fn push_commands(
    chat_id: i64,
    payload: Seq<char>,
    window_size: u32,
    ttl_days: u32,
) -> Seq<CommandView> {
    seq![
        CommandView::Lpush { key: window_key(chat_id), value: payload },
        CommandView::Ltrim {
            key: window_key(chat_id),
            start: 0,
            stop: (window_size - 1) as i64,
        },
        CommandView::Expire {
            key: window_key(chat_id),
            seconds: (ttl_days * DAY_SEC) as i64,
        },
    ]
}

/// The next step of adding an entry.
pub open spec fn push_step(
    chat_id: i64,
    msg: WorkingMessageView,
    window_size: u32,
    ttl_days: u32,
    seen: Seq<WindowEventView>,
) -> WindowStepView<()> {
    if window_size == 0 {
        WindowStepView::Done(())
    } else if seen.len() == 0 {
        WindowStepView::Encode(msg)
    } else {
        match seen[0] {
            WindowEventView::Wrote(payload) => if seen.len() == 1 {
                WindowStepView::Run(push_commands(chat_id, payload, window_size, ttl_days))
            } else {
                match seen[1] {
                    WindowEventView::Ran(o) => match any_reply(o, "pipeline"@) {
                        Ok(_) => WindowStepView::Done(()),
                        Err(e) => WindowStepView::Fail(e),
                    },
                    _ => WindowStepView::Fail(out_of_turn()),
                }
            },
            WindowEventView::NotWritten(e) => WindowStepView::Fail(ErrorView::Other(e)),
            _ => WindowStepView::Fail(out_of_turn()),
        }
    }
}

/// Adds an entry to a chat's window, which then holds the newest `window_size`
/// entries and lives for `ttl_days` days. A size of 0 means that nothing is kept:
/// then nothing is done.
pub fn push(
    chat_id: i64,
    msg: &WorkingMessage,
    window_size: u32,
    ttl_days: u32,
    seen: &[WindowEvent],
) -> (r: WindowStep<()>)
    ensures
        r.deep_view() == push_step(
            chat_id,
            msg.deep_view(),
            window_size,
            ttl_days,
            seen.deep_view(),
        ),
{
    if window_size == 0 {
        return WindowStep::Done(());
    }
    if seen.len() == 0 {
        return WindowStep::Encode(msg.copy());
    }
    assert(seen.deep_view()[0] == seen@[0].deep_view());
    match &seen[0] {
        WindowEvent::Wrote(payload) => {
            if seen.len() == 1 {
                let mut v: Vec<Command> = Vec::new();
                v.push(Command::Lpush { key: key(chat_id), value: payload.clone() });
                v.push(
                    Command::Ltrim { key: key(chat_id), start: 0, stop: (window_size - 1) as i64 },
                );
                v.push(
                    Command::Expire {
                        key: key(chat_id),
                        seconds: (ttl_days as i64) * (DAY_SEC as i64),
                    },
                );
                assert(v.deep_view() =~= push_commands(
                    chat_id,
                    payload@,
                    window_size,
                    ttl_days,
                ));
                return WindowStep::Run(v);
            }
            assert(seen.deep_view()[1] == seen@[1].deep_view());
            match &seen[1] {
                WindowEvent::Ran(o) => match expect_any(o, "pipeline") {
                    Ok(_) => WindowStep::Done(()),
                    Err(e) => WindowStep::Fail(e),
                },
                _ => unexpected(),
            }
        },
        WindowEvent::NotWritten(e) => WindowStep::Fail(Error::Other(e.clone())),
        _ => unexpected(),
    }
}

/// The first reason among `d` why a text is no entry.
pub open spec fn first_corrupt(d: Seq<DecodedView>) -> Option<Seq<char>>
    decreases d.len(),
{
    if d.len() == 0 {
        None
    } else if let DecodedView::Corrupt(e) = d[0] {
        Some(e)
    } else {
        first_corrupt(d.drop_first())
    }
}

/// The entries of `d`, the last one first.
pub open spec fn reversed_entries(d: Seq<DecodedView>) -> Seq<WorkingMessageView> {
    Seq::new(d.len(), |i: int| d[d.len() - 1 - i]->Entry_0)
}

/// The next step of reading the window.
pub open spec fn get_window_step(
    chat_id: i64,
    n: u32,
    seen: Seq<WindowEventView>,
) -> WindowStepView<Seq<WorkingMessageView>> {
    if n == 0 {
        WindowStepView::Done(Seq::empty())
    } else if seen.len() == 0 {
        WindowStepView::Run(
            seq![CommandView::Lrange { key: window_key(chat_id), start: 0, stop: (n - 1) as i64 }],
        )
    } else {
        match seen[0] {
            WindowEventView::Ran(o) => match list_reply(o, "LRANGE"@) {
                Err(e) => WindowStepView::Fail(e),
                Ok(texts) => if seen.len() == 1 {
                    WindowStepView::Decode(texts)
                } else {
                    match seen[1] {
                        WindowEventView::Read(d) => match first_corrupt(d) {
                            Some(e) => WindowStepView::Fail(ErrorView::Other(e)),
                            None => WindowStepView::Done(reversed_entries(d)),
                        },
                        _ => WindowStepView::Fail(out_of_turn()),
                    }
                },
            },
            _ => WindowStepView::Fail(out_of_turn()),
        }
    }
}

fn entries_reversed(d: &Vec<Decoded>) -> (r: Result<Vec<WorkingMessage>, String>)
    ensures
        match r {
            Ok(v) => first_corrupt(d.deep_view()) is None && v.deep_view() == reversed_entries(
                d.deep_view(),
            ),
            Err(e) => first_corrupt(d.deep_view()) == Some(e@),
        },
{
    let ghost all = d.deep_view();
    assert(all.skip(0) =~= all);
    for i in 0..d.len()
        invariant
            all == d.deep_view(),
            first_corrupt(all) == first_corrupt(all.skip(i as int)),
            forall|k: int| 0 <= k < i ==> #[trigger] all[k] is Entry,
    {
        assert(all.skip(i as int)[0] == d@[i as int].deep_view());
        assert(all.skip(i as int).drop_first() =~= all.skip(i as int + 1));
        if let Decoded::Corrupt(e) = &d[i] {
            return Err(e.clone());
        }
        assert(all[i as int] is Entry);
    }
    let n = d.len();
    let mut out: Vec<WorkingMessage> = Vec::new();
    for i in 0..n
        invariant
            n == d@.len(),
            all == d.deep_view(),
            forall|k: int| 0 <= k < n ==> #[trigger] all[k] is Entry,
            out.deep_view() == reversed_entries(all).take(i as int),
    {
        let ghost before = out.deep_view();
        assert(all[n - 1 - i] == d@[n - 1 - i].deep_view());
        if let Decoded::Entry(m) = &d[n - 1 - i] {
            out.push(m.copy());
            assert(out.deep_view() =~= before.push(m.deep_view()));
        }
        assert(reversed_entries(all).take(i + 1) =~= reversed_entries(all).take(i as int).push(
            reversed_entries(all)[i as int],
        ));
    }
    assert(reversed_entries(all).take(n as int) =~= reversed_entries(all));
    Ok(out)
}

/// The last `n` entries of a chat's window, the oldest first.
pub fn get_window(chat_id: i64, n: u32, seen: &[WindowEvent]) -> (r: WindowStep<
    Vec<WorkingMessage>,
>)
    ensures
        r.deep_view() == get_window_step(chat_id, n, seen.deep_view()),
{
    if n == 0 {
        let v: Vec<WorkingMessage> = Vec::new();
        assert(v.deep_view() =~= Seq::<WorkingMessageView>::empty());
        return WindowStep::Done(v);
    }
    if seen.len() == 0 {
        let mut v: Vec<Command> = Vec::new();
        v.push(Command::Lrange { key: key(chat_id), start: 0, stop: (n as i64) - 1 });
        assert(v.deep_view() =~= seq![
            CommandView::Lrange { key: window_key(chat_id), start: 0, stop: (n - 1) as i64 },
        ]);
        return WindowStep::Run(v);
    }
    assert(seen.deep_view()[0] == seen@[0].deep_view());
    match &seen[0] {
        WindowEvent::Ran(o) => match expect_list(o, "LRANGE") {
            Err(e) => WindowStep::Fail(e),
            Ok(texts) => {
                if seen.len() == 1 {
                    return WindowStep::Decode(texts);
                }
                assert(seen.deep_view()[1] == seen@[1].deep_view());
                match &seen[1] {
                    WindowEvent::Read(d) => match entries_reversed(d) {
                        Ok(v) => WindowStep::Done(v),
                        Err(e) => WindowStep::Fail(Error::Other(e)),
                    },
                    _ => unexpected(),
                }
            },
        },
        _ => unexpected(),
    }
}

/// `d[i]` is an entry of the Telegram message `id`.
pub open spec fn is_entry_of(d: Seq<DecodedView>, i: int, id: i64) -> bool {
    d[i] is Entry && d[i]->Entry_0.tg_message_id == Some(id)
}

/// The first place from `from` on with an entry of the Telegram message `id`.
pub open spec fn find_entry(d: Seq<DecodedView>, id: i64, from: int) -> Option<int>
    decreases d.len() - from,
{
    if from < 0 || from >= d.len() {
        None
    } else if is_entry_of(d, from, id) {
        Some(from)
    } else {
        find_entry(d, id, from + 1)
    }
}

/// `m` with another description of its media.
pub open spec fn with_desc(m: WorkingMessageView, desc: Seq<char>) -> WorkingMessageView {
    WorkingMessageView { media_desc: Some(desc), ..m }
}

/// The next step of describing the media of an entry.
pub open spec fn patch_media_desc_step(
    chat_id: i64,
    tg_message_id: i64,
    new_desc: Seq<char>,
    seen: Seq<WindowEventView>,
) -> WindowStepView<bool> {
    if seen.len() == 0 {
        WindowStepView::Run(
            seq![CommandView::Lrange { key: window_key(chat_id), start: 0, stop: LIST_END }],
        )
    } else {
        match seen[0] {
            WindowEventView::Ran(o) => match list_reply(o, "LRANGE"@) {
                Err(e) => WindowStepView::Fail(e),
                Ok(texts) => if seen.len() == 1 {
                    WindowStepView::Decode(texts)
                } else {
                    match seen[1] {
                        WindowEventView::Read(d) => match find_entry(d, tg_message_id, 0) {
                            None => WindowStepView::Done(false),
                            Some(i) => patch_found_step(
                                chat_id,
                                i,
                                with_desc(d[i]->Entry_0, new_desc),
                                seen,
                            ),
                        },
                        _ => WindowStepView::Fail(out_of_turn()),
                    }
                },
            },
            _ => WindowStepView::Fail(out_of_turn()),
        }
    }
}

/// The next step once the entry was found at `i` and is to become `patched`.
pub open spec fn patch_found_step(
    chat_id: i64,
    i: int,
    patched: WorkingMessageView,
    seen: Seq<WindowEventView>,
) -> WindowStepView<bool> {
    if seen.len() == 2 {
        WindowStepView::Encode(patched)
    } else {
        match seen[2] {
            WindowEventView::Wrote(payload) => if seen.len() == 3 {
                WindowStepView::Run(
                    seq![
                        CommandView::Lset {
                            key: window_key(chat_id),
                            index: i as i64,
                            value: payload,
                        },
                    ],
                )
            } else {
                match seen[3] {
                    WindowEventView::Ran(o) => match any_reply(o, "LSET"@) {
                        Ok(_) => WindowStepView::Done(true),
                        Err(e) => WindowStepView::Fail(e),
                    },
                    _ => WindowStepView::Fail(out_of_turn()),
                }
            },
            WindowEventView::NotWritten(e) => WindowStepView::Fail(ErrorView::Other(e)),
            _ => WindowStepView::Fail(out_of_turn()),
        }
    }
}

fn find(d: &Vec<Decoded>, id: i64) -> (r: Option<usize>)
    ensures
        match r {
            Some(i) => find_entry(d.deep_view(), id, 0) == Some(i as int) && i < d.len(),
            None => find_entry(d.deep_view(), id, 0) is None,
        },
{
    for i in 0..d.len()
        invariant
            find_entry(d.deep_view(), id, 0) == find_entry(d.deep_view(), id, i as int),
    {
        assert(d.deep_view()[i as int] == d@[i as int].deep_view());
        if let Decoded::Entry(m) = &d[i] {
            if let Some(x) = m.tg_message_id {
                if x == id {
                    return Some(i);
                }
            }
        }
    }
    None
}

proof fn lemma_find_entry(d: Seq<DecodedView>, id: i64, from: int)
    requires
        0 <= from,
    ensures
        find_entry(d, id, from) matches Some(i) ==> from <= i < d.len() && is_entry_of(d, i, id)
            && forall|k: int| from <= k < i ==> !#[trigger] is_entry_of(d, k, id),
        find_entry(d, id, from) is None ==> forall|k: int|
            from <= k < d.len() ==> !#[trigger] is_entry_of(d, k, id),
    decreases d.len() - from,
{
    if from < d.len() && !is_entry_of(d, from, id) {
        lemma_find_entry(d, id, from + 1);
    }
}

/// Describes the media of the window's entry of a Telegram message; nothing else
/// of the entry, and no other entry, changes. Ends in `false` where the window has
/// no such entry. Texts that are no entries are passed over.
pub fn patch_media_desc(
    chat_id: i64,
    tg_message_id: i64,
    new_desc: &str,
    seen: &[WindowEvent],
) -> (r: WindowStep<bool>)
    ensures
        r.deep_view() == patch_media_desc_step(
            chat_id,
            tg_message_id,
            new_desc@,
            seen.deep_view(),
        ),
{
    if seen.len() == 0 {
        let mut v: Vec<Command> = Vec::new();
        v.push(Command::Lrange { key: key(chat_id), start: 0, stop: LIST_END });
        assert(v.deep_view() =~= seq![
            CommandView::Lrange { key: window_key(chat_id), start: 0, stop: LIST_END },
        ]);
        return WindowStep::Run(v);
    }
    assert(seen.deep_view()[0] == seen@[0].deep_view());
    let texts = match &seen[0] {
        WindowEvent::Ran(o) => match expect_list(o, "LRANGE") {
            Err(e) => {
                return WindowStep::Fail(e);
            },
            Ok(texts) => texts,
        },
        _ => {
            return unexpected();
        },
    };
    if seen.len() == 1 {
        return WindowStep::Decode(texts);
    }
    assert(seen.deep_view()[1] == seen@[1].deep_view());
    match &seen[1] {
        WindowEvent::Read(d) => match find(d, tg_message_id) {
            None => WindowStep::Done(false),
            Some(i) => {
                proof {
                    lemma_find_entry(d.deep_view(), tg_message_id, 0);
                    assert(d.deep_view()[i as int] == d@[i as int].deep_view());
                }
                match &d[i] {
                    Decoded::Entry(m) => patch_found(chat_id, i, m, new_desc, seen),
                    Decoded::Corrupt(_) => WindowStep::Done(false),
                }
            },
        },
        _ => unexpected(),
    }
}

fn patch_found(
    chat_id: i64,
    i: usize,
    m: &WorkingMessage,
    new_desc: &str,
    seen: &[WindowEvent],
) -> (r: WindowStep<bool>)
    requires
        seen.len() >= 2,
    ensures
        r.deep_view() == patch_found_step(
            chat_id,
            i as int,
            with_desc(m.deep_view(), new_desc@),
            seen.deep_view(),
        ),
{
    if seen.len() == 2 {
        let mut patched = m.copy();
        patched.media_desc = Some(new_desc.to_owned());
        assert(patched.deep_view() =~= with_desc(m.deep_view(), new_desc@));
        return WindowStep::Encode(patched);
    }
    assert(seen.deep_view()[2] == seen@[2].deep_view());
    match &seen[2] {
        WindowEvent::Wrote(payload) => {
            if seen.len() == 3 {
                let mut v: Vec<Command> = Vec::new();
                v.push(
                    Command::Lset { key: key(chat_id), index: i as i64, value: payload.clone() },
                );
                assert(v.deep_view() =~= seq![
                    CommandView::Lset {
                        key: window_key(chat_id),
                        index: i as i64,
                        value: payload@,
                    },
                ]);
                return WindowStep::Run(v);
            }
            assert(seen.deep_view()[3] == seen@[3].deep_view());
            match &seen[3] {
                WindowEvent::Ran(o) => match expect_any(o, "LSET") {
                    Ok(_) => WindowStep::Done(true),
                    Err(e) => WindowStep::Fail(e),
                },
                _ => unexpected(),
            }
        },
        WindowEvent::NotWritten(e) => WindowStep::Fail(Error::Other(e.clone())),
        _ => unexpected(),
    }
}

} // verus!
