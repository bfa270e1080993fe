//! Removal of near-duplicates among a chat's events.
//!
//! The events are grouped by category. Within a group any two events whose vectors
//! are close enough are duplicates: the one with the higher score stays, at equal
//! scores the older one. The others go from SQLite and from Qdrant.
use std::collections::HashSet;

use vstd::prelude::*;

use crate::error::{Error, ErrorView};
use crate::float_bits::FloatBits;
use crate::text::{push_text, same};

verus! {

/// How many of a chat's newest events are looked at.
pub const DEDUP_LIMIT: i64 = 1000;

/// An event, as far as the removal of duplicates reads it.
pub struct EventRow {
    pub sqlite_id: i64,
    pub qdrant_point_id: String,
    pub score: u8,
    pub category: String,
    pub created_at: i64,
}

/// An event as a mathematical value.
#[verifier::ext_equal]
pub struct EventRowView {
    pub sqlite_id: i64,
    pub qdrant_point_id: Seq<char>,
    pub score: u8,
    pub category: Seq<char>,
    pub created_at: i64,
}

impl DeepView for EventRow {
    type V = EventRowView;

    open spec fn deep_view(&self) -> EventRowView {
        EventRowView {
            sqlite_id: self.sqlite_id,
            qdrant_point_id: self.qdrant_point_id@,
            score: self.score,
            category: self.category@,
            created_at: self.created_at,
        }
    }
}

impl EventRow {
    /// A copy of the row.
    pub fn copy(&self) -> (r: EventRow)
        ensures
            r == *self,
    {
        EventRow {
            sqlite_id: self.sqlite_id,
            qdrant_point_id: self.qdrant_point_id.clone(),
            score: self.score,
            category: self.category.clone(),
            created_at: self.created_at,
        }
    }

    /// A row as the database hands it out: of the score only the low byte is kept.
    pub fn from_columns(
        sqlite_id: i64,
        qdrant_point_id: String,
        score: i64,
        category: String,
        created_at: i64,
    ) -> (r: EventRow)
        ensures
            r.deep_view() == (EventRowView {
                sqlite_id,
                qdrant_point_id: qdrant_point_id@,
                score: (score as int % 256) as u8,
                category: category@,
                created_at,
            }),
    {
        let low: i64 = score & 0xff;
        assert(0 <= score & 0xff < 256 && (score & 0xff) as int == score as int % 256)
            by (bit_vector);
        EventRow { sqlite_id, qdrant_point_id, score: low as u8, category, created_at }
    }
}

/// How close the vectors of a group's events are: for each event with a vector
/// the similarity to each event of the group, for one without a vector none.
pub type Closeness = Vec<Option<Vec<FloatBits>>>;

/// The same as a mathematical value.
pub type ClosenessView = Seq<Option<Seq<FloatBits>>>;

/// The events `i` and `j` both have vectors, and these are closer than `threshold`.
pub open spec fn similar(c: ClosenessView, threshold: FloatBits, i: int, j: int) -> bool {
    &&& 0 <= i < c.len()
    &&& 0 <= j < c.len()
    &&& c[i] is Some
    &&& c[j] is Some
    &&& j < c[i]->0.len()
    &&& c[i]->0[j].above(threshold)
}

/// Of two duplicates, `a` standing before `b`: `a` stays and `b` goes.
pub open spec fn first_wins(a: EventRowView, b: EventRowView) -> bool {
    a.score > b.score || (a.score == b.score && a.created_at < b.created_at)
}

/// What goes once event `i` has been held against the events from `j` on.
pub open spec fn doomed_row(
    rows: Seq<EventRowView>,
    c: ClosenessView,
    threshold: FloatBits,
    i: int,
    j: int,
    gone: Set<i64>,
) -> Set<i64>
    decreases rows.len() - j,
{
    if j >= rows.len() {
        gone
    } else {
        let next = if gone.contains(rows[j].sqlite_id) || !similar(c, threshold, i, j) {
            gone
        } else if first_wins(rows[i], rows[j]) {
            gone.insert(rows[j].sqlite_id)
        } else {
            gone.insert(rows[i].sqlite_id)
        };
        doomed_row(rows, c, threshold, i, j + 1, next)
    }
}

/// What goes once the events from `i` on have been held against all later ones.
pub open spec fn doomed_from(
    rows: Seq<EventRowView>,
    c: ClosenessView,
    threshold: FloatBits,
    i: int,
    gone: Set<i64>,
) -> Set<i64>
    decreases rows.len() - i,
{
    if i >= rows.len() {
        gone
    } else if i < 0 || gone.contains(rows[i].sqlite_id) || i >= c.len() || c[i] is None {
        doomed_from(rows, c, threshold, i + 1, gone)
    } else {
        doomed_from(rows, c, threshold, i + 1, doomed_row(rows, c, threshold, i, i + 1, gone))
    }
}

/// The ids of the events of a group that go.
pub open spec fn doomed_ids(
    rows: Seq<EventRowView>,
    c: ClosenessView,
    threshold: FloatBits,
) -> Set<i64> {
    doomed_from(rows, c, threshold, 0, Set::empty())
}

/// The events of a group that go, in their order, each with its point.
pub open spec fn doomed(
    rows: Seq<EventRowView>,
    c: ClosenessView,
    threshold: FloatBits,
) -> Seq<EventRowView> {
    let ids = doomed_ids(rows, c, threshold);
    rows.filter(|r: EventRowView| ids.contains(r.sqlite_id))
}

fn is_similar(c: &Closeness, threshold: FloatBits, i: usize, j: usize) -> (r: bool)
    ensures
        r == similar(c.deep_view(), threshold, i as int, j as int),
{
    if i >= c.len() || j >= c.len() {
        return false;
    }
    assert(c.deep_view()[i as int] == c@[i as int].deep_view());
    assert(c.deep_view()[j as int] == c@[j as int].deep_view());
    match (&c[i], &c[j]) {
        (Some(row), Some(_)) => j < row.len() && row[j].gt(threshold),
        _ => false,
    }
}

fn hold_against_later(
    rows: &Vec<EventRow>,
    closeness: &Closeness,
    threshold: FloatBits,
    i: usize,
    gone: &mut HashSet<i64>,
)
    requires
        i < rows.len(),
    ensures
        final(gone)@ == doomed_row(
            rows.deep_view(),
            closeness.deep_view(),
            threshold,
            i as int,
            i + 1,
            old(gone)@,
        ),
{
    broadcast use vstd::std_specs::hash::group_hash_axioms;

    let ghost rv = rows.deep_view();
    let ghost cv = closeness.deep_view();
    let ghost all = doomed_row(rv, cv, threshold, i as int, i + 1, old(gone)@);
    assert(rv[i as int] == rows@[i as int].deep_view());
    let e1 = &rows[i];
    let n = rows.len();
    for j in (i + 1)..n
        invariant
            i < n,
            n == rows@.len(),
            rv == rows.deep_view(),
            cv == closeness.deep_view(),
            rv[i as int] == e1.deep_view(),
            all == doomed_row(rv, cv, threshold, i as int, j as int, gone@),
    {
        broadcast use vstd::std_specs::hash::group_hash_axioms;

        assert(rv[j as int] == rows@[j as int].deep_view());
        let e2 = &rows[j];
        if !gone.contains(&e2.sqlite_id) && is_similar(closeness, threshold, i, j) {
            if e1.score > e2.score || (e1.score == e2.score && e1.created_at < e2.created_at) {
                gone.insert(e2.sqlite_id);
            } else {
                gone.insert(e1.sqlite_id);
            }
        }
    }
}

fn has_vector(closeness: &Closeness, i: usize) -> (r: bool)
    ensures
        r == (i < closeness@.len() && closeness.deep_view()[i as int] is Some),
{
    if i >= closeness.len() {
        return false;
    }
    assert(closeness.deep_view()[i as int] == closeness@[i as int].deep_view());
    closeness[i].is_some()
}

/// The events of a group that go, in their order.
pub fn duplicates(rows: &Vec<EventRow>, closeness: &Closeness, threshold: FloatBits) -> (r: Vec<
    EventRow,
>)
    ensures
        r.deep_view() == doomed(rows.deep_view(), closeness.deep_view(), threshold),
{
    broadcast use vstd::std_specs::hash::group_hash_axioms;

    let ghost rv = rows.deep_view();
    let ghost cv = closeness.deep_view();
    let mut gone: HashSet<i64> = HashSet::new();
    let n = rows.len();
    for i in 0..n
        invariant
            n == rows@.len(),
            rv == rows.deep_view(),
            cv == closeness.deep_view(),
            doomed_ids(rv, cv, threshold) == doomed_from(rv, cv, threshold, i as int, gone@),
    {
        broadcast use vstd::std_specs::hash::group_hash_axioms;

        assert(rv[i as int] == rows@[i as int].deep_view());
        if !gone.contains(&rows[i].sqlite_id) && has_vector(closeness, i) {
            hold_against_later(rows, closeness, threshold, i, &mut gone);
        }
    }
    let ghost ids = doomed_ids(rv, cv, threshold);
    let ghost keep = |r: EventRowView| ids.contains(r.sqlite_id);
    let mut out: Vec<EventRow> = Vec::new();
    assert(rv.take(0) =~= Seq::empty());
    for i in 0..n
        invariant
            n == rows@.len(),
            rv == rows.deep_view(),
            ids == gone@,
            keep == (|r: EventRowView| ids.contains(r.sqlite_id)),
            out.deep_view() == rv.take(i as int).filter(keep),
    {
        broadcast use vstd::std_specs::hash::group_hash_axioms;

        assert(rv[i as int] == rows@[i as int].deep_view());
        let ghost before = out.deep_view();
        proof {
            lemma_filter_step(rv, i as int, keep);
        }
        if gone.contains(&rows[i].sqlite_id) {
            out.push(rows[i].copy());
            assert(out.deep_view() =~= before.push(rv[i as int]));
        }
    }
    assert(rv.take(n as int) =~= rv);
    out
}

proof fn lemma_filter_step<A>(s: Seq<A>, i: int, p: spec_fn(A) -> bool)
    requires
        0 <= i < s.len(),
    ensures
        s.take(i + 1).filter(p) == (if p(s[i]) {
            s.take(i).filter(p).push(s[i])
        } else {
            s.take(i).filter(p)
        }),
{
    reveal(Seq::filter);
    assert(s.take(i + 1).drop_last() =~= s.take(i));
}

/// The categories of `rows`, in the order in which they first occur.
pub open spec fn categories(rows: Seq<EventRowView>) -> Seq<Seq<char>>
    decreases rows.len(),
{
    if rows.len() == 0 {
        Seq::empty()
    } else {
        let before = categories(rows.drop_last());
        if before.contains(rows.last().category) {
            before
        } else {
            before.push(rows.last().category)
        }
    }
}

/// The rows of one category, in their order.
pub open spec fn of_category(rows: Seq<EventRowView>, category: Seq<char>) -> Seq<EventRowView> {
    rows.filter(|r: EventRowView| r.category == category)
}

/// The rows by category.
pub open spec fn grouped(rows: Seq<EventRowView>) -> Seq<Seq<EventRowView>> {
    Seq::new(categories(rows).len(), |g: int| of_category(rows, categories(rows)[g]))
}

fn knows(names: &Vec<String>, name: &String) -> (r: bool)
    ensures
        r == names.deep_view().contains(name@),
{
    for i in 0..names.len()
        invariant
            forall|k: int| 0 <= k < i ==> names.deep_view()[k] != name@,
    {
        assert(names.deep_view()[i as int] == names@[i as int]@);
        if same(names[i].as_str(), name.as_str()) {
            return true;
        }
    }
    false
}

/// Groups rows by category; the groups stand in the order in which their
/// categories first occur.
pub fn group_by_category(rows: &Vec<EventRow>) -> (r: Vec<Vec<EventRow>>)
    ensures
        r.deep_view() == grouped(rows.deep_view()),
{
    let ghost rv = rows.deep_view();
    let n = rows.len();
    let mut names: Vec<String> = Vec::new();
    assert(rv.take(0) =~= Seq::empty());
    assert(names.deep_view() =~= categories(rv.take(0)));
    for i in 0..n
        invariant
            n == rows@.len(),
            rv == rows.deep_view(),
            names.deep_view() == categories(rv.take(i as int)),
    {
        assert(rv[i as int] == rows@[i as int].deep_view());
        assert(rv.take(i + 1).drop_last() =~= rv.take(i as int));
        if !knows(&names, &rows[i].category) {
            push_text(&mut names, rows[i].category.as_str());
        }
    }
    assert(rv.take(n as int) =~= rv);
    let mut out: Vec<Vec<EventRow>> = Vec::new();
    for g in 0..names.len()
        invariant
            rv == rows.deep_view(),
            names.deep_view() == categories(rv),
            out.deep_view() == grouped(rv).take(g as int),
    {
        let ghost before = out.deep_view();
        let group = rows_of(rows, &names[g]);
        assert(names.deep_view()[g as int] == names@[g as int]@);
        assert(group.deep_view() == grouped(rv)[g as int]);
        out.push(group);
        assert(out.deep_view() =~= before.push(group.deep_view()));
        assert(grouped(rv).take(g + 1) =~= grouped(rv).take(g as int).push(grouped(rv)[g as int]));
    }
    assert(grouped(rv).take(names@.len() as int) =~= grouped(rv));
    out
}

fn rows_of(rows: &Vec<EventRow>, category: &String) -> (r: Vec<EventRow>)
    ensures
        r.deep_view() == of_category(rows.deep_view(), category@),
{
    let ghost rv = rows.deep_view();
    let ghost p = |r: EventRowView| r.category == category@;
    let n = rows.len();
    let mut out: Vec<EventRow> = Vec::new();
    assert(rv.take(0) =~= Seq::empty());
    for i in 0..n
        invariant
            n == rows@.len(),
            rv == rows.deep_view(),
            p == (|r: EventRowView| r.category == category@),
            out.deep_view() == rv.take(i as int).filter(p),
    {
        assert(rv[i as int] == rows@[i as int].deep_view());
        let ghost before = out.deep_view();
        proof {
            lemma_filter_step(rv, i as int, p);
        }
        if same(rows[i].category.as_str(), category.as_str()) {
            out.push(rows[i].copy());
            assert(out.deep_view() =~= before.push(rv[i as int]));
        }
    }
    assert(rv.take(n as int) =~= rv);
    out
}

proof fn lemma_row_grows(
    rows: Seq<EventRowView>,
    c: ClosenessView,
    threshold: FloatBits,
    i: int,
    j: int,
    gone: Set<i64>,
)
    ensures
        gone.subset_of(doomed_row(rows, c, threshold, i, j, gone)),
    decreases rows.len() - j,
{
    if j < rows.len() {
        let next = if gone.contains(rows[j].sqlite_id) || !similar(c, threshold, i, j) {
            gone
        } else if first_wins(rows[i], rows[j]) {
            gone.insert(rows[j].sqlite_id)
        } else {
            gone.insert(rows[i].sqlite_id)
        };
        lemma_row_grows(rows, c, threshold, i, j + 1, next);
    }
}

proof fn lemma_from_grows(
    rows: Seq<EventRowView>,
    c: ClosenessView,
    threshold: FloatBits,
    i: int,
    gone: Set<i64>,
)
    ensures
        gone.subset_of(doomed_from(rows, c, threshold, i, gone)),
    decreases rows.len() - i,
{
    if i < rows.len() {
        let next = if i < 0 || gone.contains(rows[i].sqlite_id) || i >= c.len() || c[i] is None {
            gone
        } else {
            lemma_row_grows(rows, c, threshold, i, i + 1, gone);
            doomed_row(rows, c, threshold, i, i + 1, gone)
        };
        lemma_from_grows(rows, c, threshold, i + 1, next);
    }
}

proof fn lemma_row_decides(
    rows: Seq<EventRowView>,
    c: ClosenessView,
    threshold: FloatBits,
    i: int,
    j: int,
    gone: Set<i64>,
    k: int,
)
    requires
        j <= k < rows.len(),
        similar(c, threshold, i, k),
    ensures
        ({
            let all = doomed_row(rows, c, threshold, i, j, gone);
            all.contains(rows[i].sqlite_id) || all.contains(rows[k].sqlite_id)
        }),
    decreases rows.len() - j,
{
    let next = if gone.contains(rows[j].sqlite_id) || !similar(c, threshold, i, j) {
        gone
    } else if first_wins(rows[i], rows[j]) {
        gone.insert(rows[j].sqlite_id)
    } else {
        gone.insert(rows[i].sqlite_id)
    };
    if j == k {
        lemma_row_grows(rows, c, threshold, i, j + 1, next);
    } else {
        lemma_row_decides(rows, c, threshold, i, j + 1, next, k);
    }
}

proof fn lemma_from_decides(
    rows: Seq<EventRowView>,
    c: ClosenessView,
    threshold: FloatBits,
    at: int,
    gone: Set<i64>,
    i: int,
    k: int,
)
    requires
        0 <= at <= i < k < rows.len(),
        similar(c, threshold, i, k),
    ensures
        ({
            let all = doomed_from(rows, c, threshold, at, gone);
            all.contains(rows[i].sqlite_id) || all.contains(rows[k].sqlite_id)
        }),
    decreases rows.len() - at,
{
    let next = if gone.contains(rows[at].sqlite_id) || at >= c.len() || c[at] is None {
        gone
    } else {
        doomed_row(rows, c, threshold, at, at + 1, gone)
    };
    if at == i {
        if !gone.contains(rows[i].sqlite_id) {
            lemma_row_decides(rows, c, threshold, i, i + 1, gone, k);
        }
        lemma_from_grows(rows, c, threshold, at + 1, next);
    } else {
        lemma_from_decides(rows, c, threshold, at + 1, next, i, k);
    }
}

/// No two events that stay are duplicates of each other.
pub proof fn law_no_duplicates_stay(
    rows: Seq<EventRowView>,
    c: ClosenessView,
    threshold: FloatBits,
    i: int,
    k: int,
)
    requires
        0 <= i < k < rows.len(),
        !doomed_ids(rows, c, threshold).contains(rows[i].sqlite_id),
        !doomed_ids(rows, c, threshold).contains(rows[k].sqlite_id),
    ensures
        !similar(c, threshold, i, k),
{
    if similar(c, threshold, i, k) {
        lemma_from_decides(rows, c, threshold, 0, Set::empty(), i, k);
    }
}

/// `rows[i]` and `rows[k]` are duplicates and the one that yields has the id `id`.
pub open spec fn yields(
    rows: Seq<EventRowView>,
    c: ClosenessView,
    threshold: FloatBits,
    i: int,
    k: int,
    id: i64,
) -> bool {
    &&& 0 <= i < k < rows.len()
    &&& similar(c, threshold, i, k)
    &&& id == (if first_wins(rows[i], rows[k]) {
        rows[k].sqlite_id
    } else {
        rows[i].sqlite_id
    })
}

/// `id` yields to some duplicate.
pub open spec fn beaten(
    rows: Seq<EventRowView>,
    c: ClosenessView,
    threshold: FloatBits,
    id: i64,
) -> bool {
    exists|i: int, k: int| #[trigger] yields(rows, c, threshold, i, k, id)
}

proof fn lemma_row_beaten(
    rows: Seq<EventRowView>,
    c: ClosenessView,
    threshold: FloatBits,
    i: int,
    j: int,
    gone: Set<i64>,
    id: i64,
)
    requires
        0 <= i < j,
        forall|x: i64| #[trigger] gone.contains(x) ==> beaten(rows, c, threshold, x),
        doomed_row(rows, c, threshold, i, j, gone).contains(id),
    ensures
        beaten(rows, c, threshold, id),
    decreases rows.len() - j,
{
    if j < rows.len() {
        let next = if gone.contains(rows[j].sqlite_id) || !similar(c, threshold, i, j) {
            gone
        } else if first_wins(rows[i], rows[j]) {
            assert(yields(rows, c, threshold, i, j, rows[j].sqlite_id));
            gone.insert(rows[j].sqlite_id)
        } else {
            assert(yields(rows, c, threshold, i, j, rows[i].sqlite_id));
            gone.insert(rows[i].sqlite_id)
        };
        lemma_row_beaten(rows, c, threshold, i, j + 1, next, id);
    }
}

proof fn lemma_from_beaten(
    rows: Seq<EventRowView>,
    c: ClosenessView,
    threshold: FloatBits,
    i: int,
    gone: Set<i64>,
    id: i64,
)
    requires
        0 <= i,
        forall|x: i64| #[trigger] gone.contains(x) ==> beaten(rows, c, threshold, x),
        doomed_from(rows, c, threshold, i, gone).contains(id),
    ensures
        beaten(rows, c, threshold, id),
    decreases rows.len() - i,
{
    if i < rows.len() {
        if gone.contains(rows[i].sqlite_id) || i >= c.len() || c[i] is None {
            lemma_from_beaten(rows, c, threshold, i + 1, gone, id);
        } else {
            let next = doomed_row(rows, c, threshold, i, i + 1, gone);
            assert forall|x: i64| #[trigger] next.contains(x) implies beaten(
                rows,
                c,
                threshold,
                x,
            ) by {
                lemma_row_beaten(rows, c, threshold, i, i + 1, gone, x);
            }
            lemma_from_beaten(rows, c, threshold, i + 1, next, id);
        }
    }
}

/// Nothing goes without a reason: what goes has a duplicate that it yields to,
/// because of a lower score or, at equal scores, because it is not older.
pub proof fn law_what_goes_is_beaten(
    rows: Seq<EventRowView>,
    c: ClosenessView,
    threshold: FloatBits,
    id: i64,
)
    requires
        doomed_ids(rows, c, threshold).contains(id),
    ensures
        beaten(rows, c, threshold, id),
{
    lemma_from_beaten(rows, c, threshold, 0, Set::empty(), id);
}

/// `rows[b]` yields to none of the first `n` rows.
pub open spec fn unbeaten(rows: Seq<EventRowView>, b: int, n: int) -> bool {
    &&& 0 <= b < n
    &&& forall|i: int| 0 <= i < b ==> !first_wins(#[trigger] rows[i], rows[b])
    &&& forall|k: int| b < k < n ==> first_wins(rows[b], #[trigger] rows[k])
}

proof fn lemma_best(rows: Seq<EventRowView>, n: int) -> (b: int)
    requires
        0 < n <= rows.len(),
    ensures
        unbeaten(rows, b, n),
    decreases n,
{
    if n == 1 {
        0
    } else {
        let b = lemma_best(rows, n - 1);
        if first_wins(rows[b], rows[n - 1]) {
            b
        } else {
            n - 1
        }
    }
}

/// A group never disappears: one of its events always stays.
pub proof fn law_one_stays(
    rows: Seq<EventRowView>,
    c: ClosenessView,
    threshold: FloatBits,
) -> (b: int)
    requires
        rows.len() > 0,
        forall|i: int, k: int|
            0 <= i < k < rows.len() ==> #[trigger] rows[i].sqlite_id
                != #[trigger] rows[k].sqlite_id,
    ensures
        0 <= b < rows.len(),
        !doomed_ids(rows, c, threshold).contains(rows[b].sqlite_id),
{
    let b = lemma_best(rows, rows.len() as int);
    let id = rows[b].sqlite_id;
    if doomed_ids(rows, c, threshold).contains(id) {
        law_what_goes_is_beaten(rows, c, threshold, id);
        let (i, k) = choose|i: int, k: int| #[trigger] yields(rows, c, threshold, i, k, id);
        assert(yields(rows, c, threshold, i, k, id));
        if first_wins(rows[i], rows[k]) {
            assert(k == b);
        } else {
            assert(i == b);
        }
    }
    b
}

/// Every row stands in the group of its category, and no two groups share a
/// category.
pub proof fn law_grouping_keeps_all(rows: Seq<EventRowView>, i: int) -> (g: int)
    requires
        0 <= i < rows.len(),
    ensures
        0 <= g < categories(rows).len(),
        categories(rows)[g] == rows[i].category,
        grouped(rows)[g].contains(rows[i]),
        categories(rows).no_duplicates(),
{
    lemma_categories(rows);
    let cats = categories(rows);
    assert(cats.contains(rows[i].category));
    let g = choose|g: int| 0 <= g < cats.len() && cats[g] == rows[i].category;
    let p = |r: EventRowView| r.category == cats[g];
    rows.lemma_filter_contains(p, i);
    g
}

proof fn lemma_categories(rows: Seq<EventRowView>)
    ensures
        categories(rows).no_duplicates(),
        forall|i: int|
            0 <= i < rows.len() ==> categories(rows).contains(#[trigger] rows[i].category),
    decreases rows.len(),
{
    if rows.len() > 0 {
        let init = rows.drop_last();
        let before = categories(init);
        lemma_categories(init);
        assert forall|i: int| 0 <= i < rows.len() implies categories(rows).contains(
            #[trigger] rows[i].category,
        ) by {
            if i < init.len() {
                assert(init[i] == rows[i]);
                let g = choose|g: int| 0 <= g < before.len() && before[g] == rows[i].category;
                assert(categories(rows)[g] == rows[i].category);
            } else if !before.contains(rows.last().category) {
                assert(categories(rows)[before.len() as int] == rows[i].category);
            }
        }
    }
}

/// What the removal waits for.
#[derive(Clone, Copy, Debug, PartialEq, Eq, Structural)]
pub enum DedupPhase {
    /// The vectors of the group at hand.
    Vectors,
    /// The deletion of a row in SQLite.
    Row,
    /// The deletion of that row's point in Qdrant.
    Point,
    /// Nothing any more.
    Ended,
}

/// The removal of duplicates in one chat, between two of its steps.
pub struct DedupRun {
    pub groups: Vec<Vec<EventRow>>,
    pub at: usize,
    pub goes: Vec<EventRow>,
    pub next: usize,
    pub phase: DedupPhase,
    pub threshold: FloatBits,
}

/// The same as a mathematical value.
#[verifier::ext_equal]
pub struct DedupRunView {
    pub groups: Seq<Seq<EventRowView>>,
    pub at: int,
    pub goes: Seq<EventRowView>,
    pub next: int,
    pub phase: DedupPhase,
    pub threshold: FloatBits,
}

/// What happened since the last step.
pub enum DedupEvent {
    /// The vectors came, and this close they are.
    Compared(Closeness),
    /// The vectors of this group could not be had.
    NoVectors,
    /// The deletion that was asked for is done.
    Deleted,
    /// The deletion that was asked for failed.
    Failed(Error),
}

/// The same as a mathematical value.
#[verifier::ext_equal]
pub enum DedupEventView {
    Compared(ClosenessView),
    NoVectors,
    Deleted,
    Failed(ErrorView),
}

/// What the removal asks for next.
pub enum DedupAction {
    /// Compare the vectors of these points.
    Compare(Vec<String>),
    /// Delete the row with this id.
    DeleteRow(i64),
    /// Delete this point.
    DeletePoint(String),
    /// The chat is done.
    Done,
    /// The chat is given up.
    Fail(Error),
}

/// The same as a mathematical value.
#[verifier::ext_equal]
pub enum DedupActionView {
    Compare(Seq<Seq<char>>),
    DeleteRow(i64),
    DeletePoint(Seq<char>),
    Done,
    Fail(ErrorView),
}

impl DeepView for DedupRun {
    type V = DedupRunView;

    open spec fn deep_view(&self) -> DedupRunView {
        DedupRunView {
            groups: self.groups.deep_view(),
            at: self.at as int,
            goes: self.goes.deep_view(),
            next: self.next as int,
            phase: self.phase,
            threshold: self.threshold,
        }
    }
}

impl DeepView for DedupEvent {
    type V = DedupEventView;

    open spec fn deep_view(&self) -> DedupEventView {
        match self {
            DedupEvent::Compared(c) => DedupEventView::Compared(c.deep_view()),
            DedupEvent::NoVectors => DedupEventView::NoVectors,
            DedupEvent::Deleted => DedupEventView::Deleted,
            DedupEvent::Failed(e) => DedupEventView::Failed(e.deep_view()),
        }
    }
}

impl DeepView for DedupAction {
    type V = DedupActionView;

    open spec fn deep_view(&self) -> DedupActionView {
        match self {
            DedupAction::Compare(p) => DedupActionView::Compare(p.deep_view()),
            DedupAction::DeleteRow(id) => DedupActionView::DeleteRow(*id),
            DedupAction::DeletePoint(p) => DedupActionView::DeletePoint(p@),
            DedupAction::Done => DedupActionView::Done,
            DedupAction::Fail(e) => DedupActionView::Fail(e.deep_view()),
        }
    }
}

/// The points of a group.
pub open spec fn points(rows: Seq<EventRowView>) -> Seq<Seq<char>> {
    Seq::new(rows.len(), |i: int| rows[i].qdrant_point_id)
}

/// The first group from `from` on that has something to compare.
pub open spec fn next_group(groups: Seq<Seq<EventRowView>>, from: int) -> int
    decreases groups.len() - from,
{
    if from >= groups.len() || groups[from].len() >= 2 {
        from
    } else {
        next_group(groups, from + 1)
    }
}

impl DedupRunView {
    /// The indices point at what they speak of.
    pub open spec fn wf(self) -> bool {
        &&& self.phase is Vectors ==> 0 <= self.at < self.groups.len()
        &&& self.phase is Row || self.phase is Point ==> 0 <= self.at < self.groups.len() && 0
            <= self.next < self.goes.len()
    }

    /// Goes on with the groups from `from` on.
    pub open spec fn resume(self, from: int) -> (DedupRunView, DedupActionView) {
        let g = next_group(self.groups, from);
        if g >= self.groups.len() {
            (DedupRunView { phase: DedupPhase::Ended, ..self }, DedupActionView::Done)
        } else {
            (
                DedupRunView { at: g, phase: DedupPhase::Vectors, ..self },
                DedupActionView::Compare(points(self.groups[g])),
            )
        }
    }

    /// Gives up.
    pub open spec fn fail(self, e: ErrorView) -> (DedupRunView, DedupActionView) {
        (DedupRunView { phase: DedupPhase::Ended, ..self }, DedupActionView::Fail(e))
    }

    /// What an event leads to.
    pub open spec fn on(self, event: DedupEventView) -> (DedupRunView, DedupActionView) {
        match (self.phase, event) {
            (DedupPhase::Ended, _) => (self, DedupActionView::Done),
            (_, DedupEventView::Failed(e)) => self.fail(e),
            (DedupPhase::Vectors, DedupEventView::Compared(c)) => {
                let goes = doomed(self.groups[self.at], c, self.threshold);
                if goes.len() == 0 {
                    self.resume(self.at + 1)
                } else {
                    (
                        DedupRunView { goes, next: 0, phase: DedupPhase::Row, ..self },
                        DedupActionView::DeleteRow(goes[0].sqlite_id),
                    )
                }
            },
            (DedupPhase::Vectors, _) => self.resume(self.at + 1),
            (DedupPhase::Row, _) => (
                DedupRunView { phase: DedupPhase::Point, ..self },
                DedupActionView::DeletePoint(self.goes[self.next].qdrant_point_id),
            ),
            (DedupPhase::Point, _) => if self.next + 1 < self.goes.len() {
                (
                    DedupRunView { next: self.next + 1, phase: DedupPhase::Row, ..self },
                    DedupActionView::DeleteRow(self.goes[self.next + 1].sqlite_id),
                )
            } else {
                self.resume(self.at + 1)
            },
        }
    }
}

/// The removal before its first step.
pub open spec fn fresh_run(rows: Seq<EventRowView>, threshold: FloatBits) -> DedupRunView {
    DedupRunView {
        groups: grouped(rows),
        at: 0,
        goes: Seq::empty(),
        next: 0,
        phase: DedupPhase::Ended,
        threshold,
    }
}

/// Starts the removal of duplicates among a chat's newest events, the newest first.
pub fn dedup_chat(rows: &Vec<EventRow>, threshold: FloatBits) -> (r: (DedupRun, DedupAction))
    ensures
        (r.0.deep_view(), r.1.deep_view()) == fresh_run(rows.deep_view(), threshold).resume(0),
        r.0.deep_view().wf(),
{
    let groups = group_by_category(rows);
    let goes: Vec<EventRow> = Vec::new();
    assert(goes.deep_view() =~= Seq::<EventRowView>::empty());
    let mut run = DedupRun { groups, at: 0, goes, next: 0, phase: DedupPhase::Ended, threshold };
    let action = run.resume(0);
    (run, action)
}

fn points_of(rows: &Vec<EventRow>) -> (r: Vec<String>)
    ensures
        r.deep_view() == points(rows.deep_view()),
{
    let mut out: Vec<String> = Vec::new();
    for i in 0..rows.len()
        invariant
            out.deep_view() == points(rows.deep_view()).take(i as int),
    {
        push_text(&mut out, rows[i].qdrant_point_id.as_str());
        assert(out.deep_view() =~= points(rows.deep_view()).take(i as int + 1));
    }
    assert(points(rows.deep_view()).take(rows@.len() as int) =~= points(rows.deep_view()));
    out
}

impl DedupRun {
    fn resume(&mut self, from: usize) -> (r: DedupAction)
        requires
            from <= old(self).groups.len(),
        ensures
            (final(self).deep_view(), r.deep_view()) == old(self).deep_view().resume(from as int),
            final(self).deep_view().wf(),
    {
        let mut g = from;
        while g < self.groups.len() && self.groups[g].len() < 2
            invariant
                *self == *old(self),
                g <= self.groups.len(),
                next_group(self.deep_view().groups, from as int) == next_group(
                    self.deep_view().groups,
                    g as int,
                ),
            decreases self.groups.len() - g,
        {
            assert(self.deep_view().groups[g as int] == self.groups@[g as int].deep_view());
            g = g + 1;
        }
        if g >= self.groups.len() {
            self.phase = DedupPhase::Ended;
            assert(self.deep_view() =~= old(self).deep_view().resume(from as int).0);
            return DedupAction::Done;
        }
        assert(self.deep_view().groups[g as int] == self.groups@[g as int].deep_view());
        let ids = points_of(&self.groups[g]);
        self.at = g;
        self.phase = DedupPhase::Vectors;
        assert(self.deep_view() =~= old(self).deep_view().resume(from as int).0);
        DedupAction::Compare(ids)
    }

    /// Takes in what happened and says what to do next. A group whose vectors cannot
    /// be had is passed over; a deletion that fails ends the chat.
    pub fn advance(&mut self, event: DedupEvent) -> (r: DedupAction)
        requires
            old(self).deep_view().wf(),
        ensures
            (final(self).deep_view(), r.deep_view()) == old(self).deep_view().on(
                event.deep_view(),
            ),
            final(self).deep_view().wf(),
    {
        if let DedupPhase::Ended = self.phase {
            return DedupAction::Done;
        }
        if let DedupEvent::Failed(e) = event {
            self.phase = DedupPhase::Ended;
            assert(self.deep_view() =~= old(self).deep_view().fail(e.deep_view()).0);
            return DedupAction::Fail(e);
        }
        assert(self.at < self.groups.len());
        match self.phase {
            DedupPhase::Vectors => {
                if let DedupEvent::Compared(c) = event {
                    assert(self.deep_view().groups[self.at as int]
                        == self.groups@[self.at as int].deep_view());
                    let goes = duplicates(&self.groups[self.at], &c, self.threshold);
                    if goes.len() > 0 {
                        assert(goes.deep_view()[0] == goes@[0].deep_view());
                        let id = goes[0].sqlite_id;
                        self.goes = goes;
                        self.next = 0;
                        self.phase = DedupPhase::Row;
                        assert(self.deep_view() =~= old(self).deep_view().on(
                            event.deep_view(),
                        ).0);
                        return DedupAction::DeleteRow(id);
                    }
                }
                self.resume(self.at + 1)
            },
            DedupPhase::Row => {
                assert(self.deep_view().goes[self.next as int]
                    == self.goes@[self.next as int].deep_view());
                let point = self.goes[self.next].qdrant_point_id.clone();
                self.phase = DedupPhase::Point;
                assert(self.deep_view() =~= old(self).deep_view().on(event.deep_view()).0);
                DedupAction::DeletePoint(point)
            },
            _ => {
                assert(self.next < self.goes.len());
                if self.next + 1 < self.goes.len() {
                    self.next = self.next + 1;
                    self.phase = DedupPhase::Row;
                    assert(self.deep_view().goes[self.next as int]
                        == self.goes@[self.next as int].deep_view());
                    assert(self.deep_view() =~= old(self).deep_view().on(event.deep_view()).0);
                    return DedupAction::DeleteRow(self.goes[self.next].sqlite_id);
                }
                self.resume(self.at + 1)
            },
        }
    }
}

/// What happened since the last step of the round.
pub enum RoundEvent {
    /// These chats were active within the last day.
    Chats(Vec<i64>),
    /// The chat at hand is done, whether or not its duplicates could be removed.
    Did,
    /// What was asked for failed.
    Failed(Error),
}

/// The same as a mathematical value.
#[verifier::ext_equal]
pub enum RoundEventView {
    Chats(Seq<i64>),
    Did,
    Failed(ErrorView),
}

/// What the round does next.
pub enum RoundStep {
    /// Find the chats that were active within the last day.
    FindChats,
    /// Remove the duplicates of this chat.
    Chat(i64),
    /// The round is done.
    Done,
    /// The round is given up.
    Fail(Error),
}

/// The same as a mathematical value.
#[verifier::ext_equal]
pub enum RoundStepView {
    FindChats,
    Chat(i64),
    Done,
    Fail(ErrorView),
}

impl DeepView for RoundEvent {
    type V = RoundEventView;

    open spec fn deep_view(&self) -> RoundEventView {
        match self {
            RoundEvent::Chats(c) => RoundEventView::Chats(c@),
            RoundEvent::Did => RoundEventView::Did,
            RoundEvent::Failed(e) => RoundEventView::Failed(e.deep_view()),
        }
    }
}

impl DeepView for RoundStep {
    type V = RoundStepView;

    open spec fn deep_view(&self) -> RoundStepView {
        match self {
            RoundStep::FindChats => RoundStepView::FindChats,
            RoundStep::Chat(id) => RoundStepView::Chat(*id),
            RoundStep::Done => RoundStepView::Done,
            RoundStep::Fail(e) => RoundStepView::Fail(e.deep_view()),
        }
    }
}

/// The next step of a round through the chats.
pub open spec fn round_step(seen: Seq<RoundEventView>) -> RoundStepView {
    if seen.len() == 0 {
        RoundStepView::FindChats
    } else {
        match seen[0] {
            RoundEventView::Chats(chats) => if seen.len() - 1 < chats.len() {
                RoundStepView::Chat(chats[seen.len() - 1])
            } else {
                RoundStepView::Done
            },
            RoundEventView::Failed(e) => RoundStepView::Fail(e),
            RoundEventView::Did => RoundStepView::Done,
        }
    }
}

/// Goes through the active chats and removes the duplicates of each. A chat that
/// fails does not stop the others.
pub fn run_dedup(seen: &[RoundEvent]) -> (r: RoundStep)
    ensures
        r.deep_view() == round_step(seen.deep_view()),
{
    if seen.len() == 0 {
        return RoundStep::FindChats;
    }
    assert(seen.deep_view()[0] == seen@[0].deep_view());
    match &seen[0] {
        RoundEvent::Chats(chats) => {
            if seen.len() - 1 < chats.len() {
                RoundStep::Chat(chats[seen.len() - 1])
            } else {
                RoundStep::Done
            }
        },
        RoundEvent::Failed(e) => RoundStep::Fail(e.copy()),
        RoundEvent::Did => RoundStep::Done,
    }
}

/// Every active chat has its turn, whatever became of those before it.
pub proof fn law_every_chat_has_its_turn(chats: Seq<i64>, seen: Seq<RoundEventView>, i: int)
    requires
        0 <= i < chats.len(),
        seen.len() == i + 1,
        seen[0] == RoundEventView::Chats(chats),
    ensures
        round_step(seen) == RoundStepView::Chat(chats[i]),
{
}

} // verus!
