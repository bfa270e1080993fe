//! Facts about people.
use vstd::prelude::*;

use crate::error::joined;
use crate::llm::prompt_builder::{People, PeopleView};
use crate::memory::retrieval::{
    embedded_rows_step, retrieve_embedded_rows, RetrieveEvent, RetrieveStep, Table,
};
use crate::memory::working::{WorkingMessage, WorkingMessageView};
use crate::storage::qdrant::{facts_query, search_similar_user_facts};
use crate::text::{copy_texts, decimal, i64_to_string, same};

verus! {

/// The facts about a user in a chat that are closest to a text, at most `top_k` of
/// them; none where anything fails.
pub fn retrieve_user_facts(
    chat_id: i64,
    user_id: i64,
    query_text: &str,
    top_k: u32,
    seen: &[RetrieveEvent],
) -> (r: RetrieveStep)
    ensures
        r.deep_view() == embedded_rows_step(
            query_text@,
            facts_query(chat_id, user_id, top_k),
            Table::UserFacts,
            seen.deep_view(),
        ),
{
    retrieve_embedded_rows(
        query_text,
        search_similar_user_facts(chat_id, user_id, top_k),
        Table::UserFacts,
        seen,
    )
}

/// The users of a window, each once, in the order in which they first speak.
pub open spec fn speakers(window: Seq<WorkingMessageView>) -> Seq<i64>
    decreases window.len(),
{
    if window.len() == 0 {
        Seq::empty()
    } else {
        let before = speakers(window.drop_last());
        if before.contains(window.last().user_id) {
            before
        } else {
            before.push(window.last().user_id)
        }
    }
}

/// The users of a window, each once.
pub fn window_users(window: &Vec<WorkingMessage>) -> (r: Vec<i64>)
    ensures
        r@ == speakers(window.deep_view()),
{
    let ghost all = window.deep_view();
    let mut out: Vec<i64> = Vec::new();
    assert(out@ =~= speakers(all.take(0)));
    for i in 0..window.len()
        invariant
            all == window.deep_view(),
            out@ == speakers(all.take(i as int)),
    {
        assert(all[i as int] == window@[i as int].deep_view());
        assert(all.take(i + 1).drop_last() =~= all.take(i as int));
        let id = window[i].user_id;
        let mut known = false;
        for k in 0..out.len()
            invariant
                known == exists|j: int| 0 <= j < k && out@[j] == id,
        {
            if out[k] == id {
                known = true;
            }
        }
        if !known {
            out.push(id);
        }
    }
    assert(all.take(window@.len() as int) =~= all);
    out
}

/// The name of a user: that of the user's first entry from `from` on, or the number
/// where that entry has none.
pub open spec fn shown_name(window: Seq<WorkingMessageView>, user_id: i64, from: int) -> Seq<char>
    decreases window.len() - from,
{
    if from < 0 || from >= window.len() {
        "uid:"@ + decimal(user_id as int)
    } else if window[from].user_id == user_id {
        match window[from].username {
            Some(n) => n,
            None => "uid:"@ + decimal(user_id as int),
        }
    } else {
        shown_name(window, user_id, from + 1)
    }
}

/// The name under which a user's facts are shown.
pub fn display_name(window: &Vec<WorkingMessage>, user_id: i64) -> (r: String)
    ensures
        r@ == shown_name(window.deep_view(), user_id, 0),
{
    for i in 0..window.len()
        invariant
            shown_name(window.deep_view(), user_id, 0) == shown_name(
                window.deep_view(),
                user_id,
                i as int,
            ),
    {
        assert(window.deep_view()[i as int] == window@[i as int].deep_view());
        if window[i].user_id == user_id {
            return match &window[i].username {
                Some(n) => n.clone(),
                None => joined("uid:", i64_to_string(user_id).as_str()),
            };
        }
    }
    joined("uid:", i64_to_string(user_id).as_str())
}

/// The place of `name` among `people` from `from` on.
pub open spec fn place_of(people: PeopleView, name: Seq<char>, from: int) -> Option<int>
    decreases people.len() - from,
{
    if from < 0 || from >= people.len() {
        None
    } else if people[from].0 == name {
        Some(from)
    } else {
        place_of(people, name, from + 1)
    }
}

/// `people` with these facts under `name`, in place of what was there.
pub open spec fn with_person(
    people: PeopleView,
    name: Seq<char>,
    facts: Seq<Seq<char>>,
) -> PeopleView {
    match place_of(people, name, 0) {
        Some(i) => people.update(i, (name, facts)),
        None => people.push((name, facts)),
    }
}

/// The people of a window by name, where `facts` holds what is known of each user;
/// those of whom nothing is known are left out.
pub open spec fn people_of(
    window: Seq<WorkingMessageView>,
    facts: Seq<(i64, Seq<Seq<char>>)>,
) -> PeopleView
    decreases facts.len(),
{
    if facts.len() == 0 {
        Seq::empty()
    } else {
        let before = people_of(window, facts.drop_last());
        let (user, known) = facts.last();
        if known.len() == 0 {
            before
        } else {
            with_person(before, shown_name(window, user, 0), known)
        }
    }
}

proof fn lemma_place_of(people: PeopleView, name: Seq<char>, from: int)
    requires
        0 <= from,
    ensures
        place_of(people, name, from) matches Some(i) ==> from <= i < people.len(),
    decreases people.len() - from,
{
    if from < people.len() && people[from].0 != name {
        lemma_place_of(people, name, from + 1);
    }
}

fn set_person(people: &mut People, name: String, facts: Vec<String>)
    ensures
        final(people).deep_view() == with_person(
            old(people).deep_view(),
            name@,
            facts.deep_view(),
        ),
{
    let ghost before = people.deep_view();
    proof {
        lemma_place_of(before, name@, 0);
    }
    let n = people.len();
    let mut i: usize = 0;
    while i < n && !same(people[i].0.as_str(), name.as_str())
        invariant
            *people == *old(people),
            before == people.deep_view(),
            n == people@.len(),
            i <= n,
            place_of(before, name@, 0) == place_of(before, name@, i as int),
        decreases n - i,
    {
        assert(before[i as int] == people@[i as int].deep_view());
        i = i + 1;
    }
    if i < n {
        assert(before[i as int] == people@[i as int].deep_view());
        people.set(i, (name, facts));
        assert(people.deep_view() =~= before.update(i as int, (name@, facts.deep_view())));
    } else {
        people.push((name, facts));
        assert(people.deep_view() =~= before.push((name@, facts.deep_view())));
    }
}

/// The people of a window by name, where `facts` holds what is known of each user;
/// those of whom nothing is known are left out. Of two users shown under one name
/// the later stays.
pub fn retrieve_facts_for_window_users(
    window: &Vec<WorkingMessage>,
    facts: &Vec<(i64, Vec<String>)>,
) -> (r: People)
    ensures
        r.deep_view() == people_of(window.deep_view(), facts.deep_view()),
{
    let ghost all = facts.deep_view();
    let mut out: People = Vec::new();
    assert(out.deep_view() =~= people_of(window.deep_view(), all.take(0)));
    for i in 0..facts.len()
        invariant
            all == facts.deep_view(),
            out.deep_view() == people_of(window.deep_view(), all.take(i as int)),
    {
        assert(all[i as int] == facts@[i as int].deep_view());
        assert(all.take(i + 1).drop_last() =~= all.take(i as int));
        if facts[i].1.len() > 0 {
            let known = copy_texts(&facts[i].1);
            assert(known.deep_view() =~= facts@[i as int].1.deep_view());
            set_person(&mut out, display_name(window, facts[i].0), known);
        }
    }
    assert(all.take(facts@.len() as int) =~= all);
    out
}

/// Every user who speaks in the window is looked up, and none twice.
pub proof fn law_every_speaker_once(window: Seq<WorkingMessageView>)
    ensures
        speakers(window).no_duplicates(),
        forall|i: int|
            0 <= i < window.len() ==> speakers(window).contains(#[trigger] window[i].user_id),
    decreases window.len(),
{
    if window.len() > 0 {
        let init = window.drop_last();
        let before = speakers(init);
        law_every_speaker_once(init);
        assert forall|i: int| 0 <= i < window.len() implies speakers(window).contains(
            #[trigger] window[i].user_id,
        ) by {
            if i < init.len() {
                assert(init[i] == window[i]);
                let g = choose|g: int| 0 <= g < before.len() && before[g] == window[i].user_id;
                assert(speakers(window)[g] == window[i].user_id);
            } else if !before.contains(window.last().user_id) {
                assert(speakers(window)[before.len() as int] == window[i].user_id);
            }
        }
    }
}

} // verus!
