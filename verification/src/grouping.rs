//! What holds of the grouping of rows into tasks.

use vstd::prelude::*;
use crate::read::{
    all_complete, all_readable, events_of, events_under, first_under, grouped, logged_ids,
    task_under, well_grouped,
};
use crate::rows::{EventColumnsView, JoinedRowView};
use crate::seqs::{lemma_filter_none, lemma_filter_push};
use crate::types::{EventView, TaskView};

verus! {

/// One more row adds its event to the events under its own task, and to
/// no others.
pub proof fn lemma_events_under_push(rows: Seq<JoinedRowView>, row: JoinedRowView, id: i32)
    ensures
        events_under(rows.push(row), id) == if row.logs_under(id) {
            events_under(rows, id).push(row.event.event())
        } else {
            events_under(rows, id)
        },
{
    lemma_filter_push(rows, row, |r: JoinedRowView| r.logs_under(id));
}

/// `logged_ids` holds a key if and only if some row carries an event under
/// it, and holds no key twice.
pub proof fn lemma_logged_ids(rows: Seq<JoinedRowView>)
    ensures
        logged_ids(rows).no_duplicates(),
        forall|id: i32|
            logged_ids(rows).contains(id) <==> exists|k: int|
                0 <= k < rows.len() && (#[trigger] rows[k]).logs_under(id),
    decreases rows.len(),
{
    if rows.len() > 0 {
        let front = rows.drop_last();
        let last = rows.last();
        lemma_logged_ids(front);
        let before = logged_ids(front);
        assert forall|id: i32|
            logged_ids(rows).contains(id) <==> exists|k: int|
                0 <= k < rows.len() && (#[trigger] rows[k]).logs_under(id) by {
            if logged_ids(rows).contains(id) {
                if before.contains(id) {
                    let k = choose|k: int| 0 <= k < front.len() && (#[trigger] front[k]).logs_under(id);
                    assert(rows[k].logs_under(id));
                } else {
                    let i = choose|i: int| 0 <= i < logged_ids(rows).len() && logged_ids(rows)[i] == id;
                    assert(i == before.len());
                    assert(rows[rows.len() - 1].logs_under(id));
                }
            }
            if exists|k: int| 0 <= k < rows.len() && (#[trigger] rows[k]).logs_under(id) {
                let k = choose|k: int| 0 <= k < rows.len() && (#[trigger] rows[k]).logs_under(id);
                if k < front.len() {
                    assert(front[k].logs_under(id));
                    assert(before.contains(id));
                    let i = choose|i: int| 0 <= i < before.len() && before[i] == id;
                    assert(logged_ids(rows)[i] == id);
                } else {
                    if before.contains(id) {
                        let i = choose|i: int| 0 <= i < before.len() && before[i] == id;
                        assert(logged_ids(rows)[i] == id);
                    } else {
                        assert(logged_ids(rows)[before.len() as int] == id);
                    }
                }
            }
        }
    }
}

/// Among the events under a key that `logged_ids` does not hold there is
/// none.
pub proof fn lemma_unlogged_has_no_events(rows: Seq<JoinedRowView>, id: i32)
    requires
        !logged_ids(rows).contains(id),
    ensures
        events_under(rows, id) == Seq::<EventView>::empty(),
        forall|k: int| 0 <= k < rows.len() ==> !(#[trigger] rows[k]).logs_under(id),
{
    lemma_logged_ids(rows);
    lemma_filter_none(rows, |r: JoinedRowView| r.logs_under(id));
}

/// At most one row is the first under a key.
pub proof fn lemma_first_under_unique(rows: Seq<JoinedRowView>, id: i32, a: int, b: int)
    requires
        first_under(rows, id, a),
        first_under(rows, id, b),
    ensures
        a == b,
{
    if a < b {
        assert(!rows[a].logs_under(id));
    }
    if b < a {
        assert(!rows[b].logs_under(id));
    }
}

/// What one more row makes of the tasks. A row without an event changes
/// nothing. A row with an event of a task that is there adds the event to
/// that task, at the end. A row with an event of a task that is not there
/// adds the task, at the end, named as the row names it, with that one
/// event.
pub proof fn lemma_grouped_push(rows: Seq<JoinedRowView>, row: JoinedRowView)
    ensures
        !row.has_event() ==> grouped(rows.push(row)) == grouped(rows),
        row.has_event() && !logged_ids(rows).contains(row.task_id) ==> grouped(rows.push(row))
            == grouped(rows).push(
            TaskView {
                id: row.task_id,
                name: row.task_name,
                details: row.task_details,
                events: Some(seq![row.event.event()]),
            },
        ),
        row.has_event() && logged_ids(rows).contains(row.task_id) ==> {
            let at = logged_ids(rows).index_of(row.task_id);
            &&& 0 <= at < grouped(rows).len()
            &&& grouped(rows)[at].id == row.task_id
            &&& grouped(rows.push(row)) == grouped(rows).update(
                at,
                TaskView {
                    id: row.task_id,
                    name: grouped(rows)[at].name,
                    details: grouped(rows)[at].details,
                    events: Some(grouped(rows)[at].events->0.push(row.event.event())),
                },
            )
        },
{
    let next = rows.push(row);
    let ids = logged_ids(rows);
    assert(next.drop_last() =~= rows);
    lemma_logged_ids(rows);
    assert forall|at: int| 0 <= at < ids.len() implies task_under(next, ids[at]).name
        == task_under(rows, ids[at]).name && task_under(next, ids[at]).details == task_under(
        rows,
        ids[at],
    ).details by {
        let id = ids[at];
        lemma_first_row(rows, id);
        let first = choose|k: int| first_under(rows, id, k);
        lemma_first_under_unique(next, id, first, choose|k: int| first_under(next, id, k));
    }
    assert forall|at: int| 0 <= at < ids.len() implies (#[trigger] task_under(next, ids[at])).events
        == Some(
        if row.logs_under(ids[at]) {
            events_under(rows, ids[at]).push(row.event.event())
        } else {
            events_under(rows, ids[at])
        },
    ) by {
        lemma_events_under_push(rows, row, ids[at]);
    }
    if row.has_event() && !ids.contains(row.task_id) {
        lemma_unlogged_has_no_events(rows, row.task_id);
        lemma_events_under_push(rows, row, row.task_id);
        assert(first_under(next, row.task_id, rows.len() as int));
    }
}

/// Under a key that `logged_ids` holds, some row is the first.
pub proof fn lemma_first_row(rows: Seq<JoinedRowView>, id: i32)
    requires
        logged_ids(rows).contains(id),
    ensures
        exists|k: int| first_under(rows, id, k),
    decreases rows.len(),
{
    if rows.len() > 0 {
        let front = rows.drop_last();
        if logged_ids(front).contains(id) {
            lemma_first_row(front, id);
            let k = choose|k: int| first_under(front, id, k);
            assert(first_under(rows, id, k)) by {
                assert forall|j: int| 0 <= j < k implies !(#[trigger] rows[j]).logs_under(id) by {
                    assert(rows[j] == front[j]);
                }
            }
        } else {
            lemma_unlogged_has_no_events(front, id);
            let i = choose|i: int| 0 <= i < logged_ids(rows).len() && logged_ids(rows)[i] == id;
            assert(first_under(rows, id, rows.len() - 1)) by {
                assert forall|j: int| 0 <= j < rows.len() - 1 implies !(#[trigger] rows[j]).logs_under(
                    id,
                ) by {
                    assert(rows[j] == front[j]);
                }
            }
        }
    }
}

/// Whatever the rows, what they are grouped into is well grouped.
pub proof fn lemma_grouped_is_well_grouped(rows: Seq<JoinedRowView>)
    ensures
        well_grouped(grouped(rows)),
{
    lemma_logged_ids(rows);
    let ids = logged_ids(rows);
    assert forall|i: int| 0 <= i < grouped(rows).len() implies (#[trigger] grouped(
        rows,
    )[i]).events is Some && grouped(rows)[i].events->0.len() > 0 by {
        assert(ids.contains(ids[i]));
        let k = choose|k: int| 0 <= k < rows.len() && (#[trigger] rows[k]).logs_under(ids[i]);
        let pred = |r: JoinedRowView| r.logs_under(ids[i]);
        rows.lemma_filter_contains(pred, k);
    }
}

/// No event is made up: each event that a task comes out with is the
/// event of a row that carries one under the task's key, with every field
/// that an event must have.
pub proof fn lemma_events_come_from_rows(rows: Seq<JoinedRowView>, at: int, nth: int)
    requires
        all_readable(rows),
        0 <= at < grouped(rows).len(),
        0 <= nth < grouped(rows)[at].events->0.len(),
    ensures
        exists|k: int|
            0 <= k < rows.len() && (#[trigger] rows[k]).logs_under(grouped(rows)[at].id)
                && rows[k].event.complete() && grouped(rows)[at].events->0[nth]
                == rows[k].event.event(),
{
    let id = grouped(rows)[at].id;
    let pred = |r: JoinedRowView| r.logs_under(id);
    let kept = rows.filter(pred);
    rows.lemma_filter_pred(pred, nth);
    assert(kept.contains(kept[nth]));
    rows.lemma_filter_contains_rev(pred, kept[nth]);
    let k = choose|k: int| 0 <= k < rows.len() && rows[k] == kept[nth];
    assert(rows[k].logs_under(id) && rows[k].readable());
}

/// A task comes out if and only if some row carries an event under its
/// key: a task that has rows without events only is left out.
pub proof fn lemma_tasks_are_those_with_events(rows: Seq<JoinedRowView>, id: i32)
    ensures
        (exists|at: int| 0 <= at < grouped(rows).len() && (#[trigger] grouped(rows)[at]).id == id)
            <==> (exists|k: int| 0 <= k < rows.len() && (#[trigger] rows[k]).logs_under(id)),
{
    lemma_logged_ids(rows);
    let ids = logged_ids(rows);
    if exists|at: int| 0 <= at < grouped(rows).len() && (#[trigger] grouped(rows)[at]).id == id {
        let at = choose|at: int|
            0 <= at < grouped(rows).len() && (#[trigger] grouped(rows)[at]).id == id;
        assert(ids[at] == id);
        assert(ids.contains(id));
    }
    if exists|k: int| 0 <= k < rows.len() && (#[trigger] rows[k]).logs_under(id) {
        assert(ids.contains(id));
        let at = choose|at: int| 0 <= at < ids.len() && ids[at] == id;
        assert(grouped(rows)[at].id == id);
    }
}

/// A read of all events depends on what the rows hold and on nothing else:
/// rows that hold the same are read as the same, or refused alike.
pub proof fn lemma_same_rows_same_events(first: Seq<EventColumnsView>, second: Seq<EventColumnsView>)
    requires
        first.len() == second.len(),
        forall|k: int| 0 <= k < first.len() ==> first[k] == second[k],
    ensures
        all_complete(first) == all_complete(second),
        events_of(first) == events_of(second),
{
}

/// A read of all tasks depends on what the rows hold and on nothing else:
/// rows that hold the same are read as the same, or refused alike.
pub proof fn lemma_same_rows_same_tasks(first: Seq<JoinedRowView>, second: Seq<JoinedRowView>)
    requires
        first.len() == second.len(),
        forall|k: int| 0 <= k < first.len() ==> first[k] == second[k],
    ensures
        all_readable(first) == all_readable(second),
        grouped(first) == grouped(second),
{
    assert(first =~= second);
}

} // verus!
