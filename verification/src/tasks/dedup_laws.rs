//! What the removal of near-duplicates promises for a chat as a whole.
use vstd::prelude::*;

use crate::error::ErrorView;
use crate::float_bits::FloatBits;
use crate::tasks::dedup_events::{
    categories, doomed, doomed_ids, first_wins, fresh_run, grouped, law_grouping_keeps_all,
    law_no_duplicates_stay, law_one_stays, law_what_goes_is_beaten, of_category,
    points, similar, yields, ClosenessView, DedupActionView, DedupEventView, DedupRunView,
    EventRowView,
};

verus! {

/// The deletions that a run asks for in its next `fuel` steps, where `compare` tells how
/// close the vectors of some points are, or that they cannot be had, and every deletion
/// succeeds.
pub open spec fn deletions(
    run: DedupRunView,
    action: DedupActionView,
    compare: spec_fn(Seq<Seq<char>>) -> Option<ClosenessView>,
    fuel: nat,
) -> Seq<DedupActionView>
    decreases fuel,
{
    if fuel == 0 {
        Seq::empty()
    } else {
        let left = (fuel - 1) as nat;
        match action {
            DedupActionView::Compare(p) => {
                let next = match compare(p) {
                    Some(c) => run.on(DedupEventView::Compared(c)),
                    None => run.on(DedupEventView::NoVectors),
                };
                deletions(next.0, next.1, compare, left)
            },
            DedupActionView::DeleteRow(_) | DedupActionView::DeletePoint(_) => {
                let next = run.on(DedupEventView::Deleted);
                seq![action] + deletions(next.0, next.1, compare, left)
            },
            _ => Seq::empty(),
        }
    }
}

/// The two deletions of each of these events, one event after the other: the row, then
/// the point.
pub open spec fn both_deletions(rows: Seq<EventRowView>) -> Seq<DedupActionView>
    decreases rows.len(),
{
    if rows.len() == 0 {
        Seq::empty()
    } else {
        seq![
            DedupActionView::DeleteRow(rows[0].sqlite_id),
            DedupActionView::DeletePoint(rows[0].qdrant_point_id),
        ] + both_deletions(rows.drop_first())
    }
}

/// The points of these rows, in their order.
pub open spec fn points_in(rows: Seq<EventRowView>) -> Seq<Seq<char>> {
    rows.map_values(|r: EventRowView| r.qdrant_point_id)
}

/// What is to go of a group, where `compare` tells how close its vectors are.
pub open spec fn goes_of(
    group: Seq<EventRowView>,
    compare: spec_fn(Seq<Seq<char>>) -> Option<ClosenessView>,
    threshold: FloatBits,
) -> Seq<EventRowView> {
    match compare(points_in(group)) {
        Some(c) if group.len() >= 2 => doomed(group, c, threshold),
        _ => Seq::empty(),
    }
}

/// The deletions of the groups from `from` on, one group after the other.
pub open spec fn deletions_from(
    groups: Seq<Seq<EventRowView>>,
    from: int,
    compare: spec_fn(Seq<Seq<char>>) -> Option<ClosenessView>,
    threshold: FloatBits,
) -> Seq<DedupActionView>
    decreases groups.len() - from,
{
    if from >= groups.len() {
        Seq::empty()
    } else {
        both_deletions(goes_of(groups[from], compare, threshold)) + deletions_from(
            groups,
            from + 1,
            compare,
            threshold,
        )
    }
}

/// More steps than the groups from `from` on can take.
pub open spec fn steps_from(groups: Seq<Seq<EventRowView>>, from: int) -> nat
    decreases groups.len() - from,
{
    if from >= groups.len() {
        1
    } else {
        1 + 2 * groups[from].len() + steps_from(groups, from + 1)
    }
}

proof fn lemma_rest_of_group(
    run: DedupRunView,
    compare: spec_fn(Seq<Seq<char>>) -> Option<ClosenessView>,
    fuel: nat,
)
    requires
        run.phase is Row,
        0 <= run.at < run.groups.len(),
        0 <= run.next < run.goes.len(),
        fuel >= 2 * (run.goes.len() - run.next) + steps_from(run.groups, run.at + 1),
    ensures
        deletions(
            run,
            DedupActionView::DeleteRow(run.goes[run.next].sqlite_id),
            compare,
            fuel,
        ) == both_deletions(run.goes.skip(run.next)) + deletions_from(
            run.groups,
            run.at + 1,
            compare,
            run.threshold,
        ),
    decreases run.groups.len() - run.at, run.goes.len() - run.next, 0int,
{
    let row = run.goes[run.next];
    let del_row = DedupActionView::DeleteRow(row.sqlite_id);
    let del_point = DedupActionView::DeletePoint(row.qdrant_point_id);
    let rest = run.goes.skip(run.next);
    assert(rest[0] == row);
    assert(rest.drop_first() =~= run.goes.skip(run.next + 1));
    let a = run.on(DedupEventView::Deleted);
    let b = a.0.on(DedupEventView::Deleted);
    assert(a.1 == del_point);
    let tail = deletions_from(run.groups, run.at + 1, compare, run.threshold);
    reveal_with_fuel(deletions, 3);
    let later = deletions(b.0, b.1, compare, (fuel - 2) as nat);
    assert(deletions(run, del_row, compare, fuel) =~= seq![del_row, del_point] + later);
    if run.next + 1 < run.goes.len() {
        lemma_rest_of_group(b.0, compare, (fuel - 2) as nat);
        assert(later == both_deletions(run.goes.skip(run.next + 1)) + tail);
        assert(seq![del_row, del_point] + later =~= both_deletions(rest) + tail);
    } else {
        lemma_from_group(b.0, a.0, run.at + 1, compare, (fuel - 2) as nat);
        assert(run.goes.skip(run.next + 1) =~= Seq::empty());
        assert(both_deletions(rest.drop_first()) =~= Seq::empty());
        assert(both_deletions(rest) =~= seq![del_row, del_point]);
        assert(seq![del_row, del_point] + later =~= both_deletions(rest) + tail);
    }
}

proof fn lemma_from_group(
    run: DedupRunView,
    before: DedupRunView,
    from: int,
    compare: spec_fn(Seq<Seq<char>>) -> Option<ClosenessView>,
    fuel: nat,
)
    requires
        0 <= from <= before.groups.len(),
        run == before.resume(from).0,
        fuel >= steps_from(before.groups, from),
    ensures
        deletions(run, before.resume(from).1, compare, fuel) == deletions_from(
            before.groups,
            from,
            compare,
            before.threshold,
        ),
    decreases before.groups.len() - from + 1, 0int, 1int,
{
    let groups = before.groups;
    if from < groups.len() {
        let group = groups[from];
        if group.len() < 2 {
            lemma_from_group(run, before, from + 1, compare, fuel);
            assert(both_deletions(Seq::empty()) + deletions_from(
                groups,
                from + 1,
                compare,
                before.threshold,
            ) =~= deletions_from(groups, from + 1, compare, before.threshold));
        } else {
            assert(points(group) =~= points_in(group));
            let left = (fuel - 1) as nat;
            match compare(points_in(group)) {
                Some(c) => {
                    let goes = doomed(group, c, before.threshold);
                    let next = run.on(DedupEventView::Compared(c));
                    let ids = doomed_ids(group, c, before.threshold);
                    group.lemma_filter_len(|r: EventRowView| ids.contains(r.sqlite_id));
                    if goes.len() == 0 {
                        lemma_from_group(next.0, run, from + 1, compare, left);
                        assert(both_deletions(goes) + deletions_from(
                            groups,
                            from + 1,
                            compare,
                            before.threshold,
                        ) =~= deletions_from(groups, from + 1, compare, before.threshold));
                    } else {
                        lemma_rest_of_group(next.0, compare, left);
                        assert(goes.skip(0) =~= goes);
                    }
                },
                None => {
                    let next = run.on(DedupEventView::NoVectors);
                    lemma_from_group(next.0, run, from + 1, compare, left);
                    assert(both_deletions(Seq::empty()) + deletions_from(
                        groups,
                        from + 1,
                        compare,
                        before.threshold,
                    ) =~= deletions_from(groups, from + 1, compare, before.threshold));
                },
            }
        }
    }
}

/// In a chat every event that is to go is deleted, its row and then its point, one event
/// after the other and one category after the other, and nothing else is deleted.
pub proof fn law_all_that_goes_is_deleted(
    rows: Seq<EventRowView>,
    threshold: FloatBits,
    compare: spec_fn(Seq<Seq<char>>) -> Option<ClosenessView>,
    fuel: nat,
)
    requires
        fuel >= steps_from(grouped(rows), 0),
    ensures
        ({
            let start = fresh_run(rows, threshold).resume(0);
            deletions(start.0, start.1, compare, fuel) == deletions_from(
                grouped(rows),
                0,
                compare,
                threshold,
            )
        }),
{
    let fresh = fresh_run(rows, threshold);
    lemma_from_group(fresh.resume(0).0, fresh, 0, compare, fuel);
}

proof fn lemma_both_deletions(rows: Seq<EventRowView>, r: EventRowView)
    requires
        rows.contains(r),
    ensures
        both_deletions(rows).contains(DedupActionView::DeleteRow(r.sqlite_id)),
        both_deletions(rows).contains(DedupActionView::DeletePoint(r.qdrant_point_id)),
    decreases rows.len(),
{
    let all = both_deletions(rows);
    let rest = both_deletions(rows.drop_first());
    if rows[0] == r {
        assert(all[0] == DedupActionView::DeleteRow(r.sqlite_id));
        assert(all[1] == DedupActionView::DeletePoint(r.qdrant_point_id));
    } else {
        let i = choose|i: int| 0 <= i < rows.len() && rows[i] == r;
        assert(rows.drop_first()[i - 1] == r);
        lemma_both_deletions(rows.drop_first(), r);
        let a = choose|a: int|
            0 <= a < rest.len() && rest[a] == DedupActionView::DeleteRow(r.sqlite_id);
        let b = choose|b: int|
            0 <= b < rest.len() && rest[b] == DedupActionView::DeletePoint(r.qdrant_point_id);
        assert(all[a + 2] == rest[a]);
        assert(all[b + 2] == rest[b]);
    }
}

proof fn lemma_deletions_of(
    groups: Seq<Seq<EventRowView>>,
    from: int,
    compare: spec_fn(Seq<Seq<char>>) -> Option<ClosenessView>,
    threshold: FloatBits,
    g: int,
    r: EventRowView,
)
    requires
        0 <= from <= g < groups.len(),
        goes_of(groups[g], compare, threshold).contains(r),
    ensures
        ({
            let all = deletions_from(groups, from, compare, threshold);
            &&& all.contains(DedupActionView::DeleteRow(r.sqlite_id))
            &&& all.contains(DedupActionView::DeletePoint(r.qdrant_point_id))
        }),
    decreases g - from,
{
    let head = both_deletions(goes_of(groups[from], compare, threshold));
    let tail = deletions_from(groups, from + 1, compare, threshold);
    let all = deletions_from(groups, from, compare, threshold);
    let x = DedupActionView::DeleteRow(r.sqlite_id);
    let y = DedupActionView::DeletePoint(r.qdrant_point_id);
    if from == g {
        lemma_both_deletions(goes_of(groups[g], compare, threshold), r);
        let a = choose|a: int| 0 <= a < head.len() && head[a] == x;
        let b = choose|b: int| 0 <= b < head.len() && head[b] == y;
        assert(all[a] == x);
        assert(all[b] == y);
    } else {
        lemma_deletions_of(groups, from + 1, compare, threshold, g, r);
        let a = choose|a: int| 0 <= a < tail.len() && tail[a] == x;
        let b = choose|b: int| 0 <= b < tail.len() && tail[b] == y;
        assert(all[a + head.len()] == x);
        assert(all[b + head.len()] == y);
    }
}

/// The events `i` and `k` of a group are duplicates: both have vectors, and the
/// similarity of these is above the threshold.
pub open spec fn duplicates_in(c: ClosenessView, threshold: FloatBits, i: int, k: int) -> bool {
    &&& 0 <= i < c.len()
    &&& 0 <= k < c.len()
    &&& c[i] matches Some(row) && k < row.len() && row[k].above(threshold)
    &&& c[k] is Some
}

/// After a run through a chat no two events of one category that are duplicates are both
/// left: of any two, one is deleted from both stores.
pub proof fn law_of_two_duplicates_one_is_deleted(
    rows: Seq<EventRowView>,
    threshold: FloatBits,
    compare: spec_fn(Seq<Seq<char>>) -> Option<ClosenessView>,
    fuel: nat,
    g: int,
    i: int,
    k: int,
)
    requires
        fuel >= steps_from(grouped(rows), 0),
        0 <= g < grouped(rows).len(),
        0 <= i < k < grouped(rows)[g].len(),
        compare(points_in(grouped(rows)[g])) is Some,
        duplicates_in(compare(points_in(grouped(rows)[g]))->0, threshold, i, k),
    ensures
        ({
            let start = fresh_run(rows, threshold).resume(0);
            let done = deletions(start.0, start.1, compare, fuel);
            let a = grouped(rows)[g][i];
            let b = grouped(rows)[g][k];
            ||| done.contains(DedupActionView::DeleteRow(a.sqlite_id)) && done.contains(
                DedupActionView::DeletePoint(a.qdrant_point_id),
            )
            ||| done.contains(DedupActionView::DeleteRow(b.sqlite_id)) && done.contains(
                DedupActionView::DeletePoint(b.qdrant_point_id),
            )
        }),
{
    let group = grouped(rows)[g];
    let c = compare(points_in(group))->0;
    let ids = doomed_ids(group, c, threshold);
    let p = |r: EventRowView| ids.contains(r.sqlite_id);
    law_all_that_goes_is_deleted(rows, threshold, compare, fuel);
    if !ids.contains(group[i].sqlite_id) && !ids.contains(group[k].sqlite_id) {
        law_no_duplicates_stay(group, c, threshold, i, k);
        assert(similar(c, threshold, i, k));
    }
    if ids.contains(group[i].sqlite_id) {
        group.lemma_filter_contains(p, i);
        lemma_deletions_of(grouped(rows), 0, compare, threshold, g, group[i]);
    } else {
        group.lemma_filter_contains(p, k);
        lemma_deletions_of(grouped(rows), 0, compare, threshold, g, group[k]);
    }
}

/// What goes has a duplicate in its category that is better: of a higher score or, at
/// equal scores, at least as old.
pub proof fn law_only_the_worse_goes(
    group: Seq<EventRowView>,
    c: ClosenessView,
    threshold: FloatBits,
    r: EventRowView,
)
    requires
        doomed(group, c, threshold).contains(r),
    ensures
        group.contains(r),
        exists|i: int, k: int|
            #![trigger group[i], group[k]]
            {
                &&& 0 <= i < group.len()
                &&& 0 <= k < group.len()
                &&& i != k
                &&& group[i].sqlite_id == r.sqlite_id
                &&& duplicates_in(c, threshold, i, k) || duplicates_in(c, threshold, k, i)
                &&& group[k].score > group[i].score || (group[k].score == group[i].score
                    && group[k].created_at <= group[i].created_at)
            },
{
    let ids = doomed_ids(group, c, threshold);
    let p = |r: EventRowView| ids.contains(r.sqlite_id);
    group.lemma_filter_contains_rev(p, r);
    let n = choose|n: int| 0 <= n < group.filter(p).len() && group.filter(p)[n] == r;
    group.lemma_filter_pred(p, n);
    law_what_goes_is_beaten(group, c, threshold, r.sqlite_id);
    let (a, b) = choose|a: int, b: int| #[trigger]
        yields(group, c, threshold, a, b, r.sqlite_id);
    assert(yields(group, c, threshold, a, b, r.sqlite_id));
    if first_wins(group[a], group[b]) {
        let (i, k) = (b, a);
        assert(group[i].sqlite_id == r.sqlite_id);
        assert(duplicates_in(c, threshold, k, i));
        assert(group[k].score >= group[i].score);
    } else {
        let (i, k) = (a, b);
        assert(group[i].sqlite_id == r.sqlite_id);
        assert(duplicates_in(c, threshold, i, k));
        assert(group[k].score >= group[i].score);
    }
}

/// The groups are the chat's events by category: each group holds the events of one
/// category, all of them and in their order.
pub proof fn law_groups_are_the_categories(rows: Seq<EventRowView>, i: int) -> (g: int)
    requires
        0 <= i < rows.len(),
    ensures
        0 <= g < grouped(rows).len(),
        grouped(rows)[g] == rows.filter(|r: EventRowView| r.category == rows[i].category),
        grouped(rows)[g].contains(rows[i]),
        forall|h: int|
            0 <= h < grouped(rows).len() && h != g ==> !(#[trigger] grouped(rows)[h]).contains(
                rows[i],
            ),
{
    let g = law_grouping_keeps_all(rows, i);
    let cats = categories(rows);
    assert(cats[g] == rows[i].category);
    assert(grouped(rows)[g] == of_category(rows, rows[i].category));
    assert forall|h: int| 0 <= h < grouped(rows).len() && h != g implies !(
    #[trigger] grouped(rows)[h]).contains(rows[i]) by {
        let p = |r: EventRowView| r.category == cats[h];
        if rows.filter(p).contains(rows[i]) {
            let n = choose|n: int| 0 <= n < rows.filter(p).len() && rows.filter(p)[n] == rows[i];
            rows.lemma_filter_pred(p, n);
            assert(cats[h] == cats[g]);
        }
    }
    g
}

/// A category never disappears: one of its events is not deleted.
pub proof fn law_a_category_never_disappears(
    group: Seq<EventRowView>,
    c: ClosenessView,
    threshold: FloatBits,
) -> (b: int)
    requires
        group.len() > 0,
        forall|i: int, k: int|
            0 <= i < k < group.len() ==> #[trigger] group[i].sqlite_id
                != #[trigger] group[k].sqlite_id,
    ensures
        0 <= b < group.len(),
        !doomed(group, c, threshold).contains(group[b]),
{
    let b = law_one_stays(group, c, threshold);
    let ids = doomed_ids(group, c, threshold);
    let p = |r: EventRowView| ids.contains(r.sqlite_id);
    if group.filter(p).contains(group[b]) {
        let n = choose|n: int| 0 <= n < group.filter(p).len() && group.filter(p)[n] == group[b];
        group.lemma_filter_pred(p, n);
    }
    b
}

/// A deletion that fails ends the chat: nothing more is deleted there.
pub proof fn law_a_failed_deletion_ends_the_chat(
    run: DedupRunView,
    e: ErrorView,
    later: DedupEventView,
)
    requires
        run.phase is Row || run.phase is Point,
    ensures
        run.on(DedupEventView::Failed(e)).1 == DedupActionView::Fail(e),
        run.on(DedupEventView::Failed(e)).0.on(later).1 == DedupActionView::Done,
{
}

} // verus!
