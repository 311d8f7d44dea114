//! The read path: from the rows that the engine hands over to the events and
//! tasks that the store hands out.

use vstd::prelude::*;
use std::collections::HashMap;
use crate::error::StorageError;
use crate::rows::{EventColumns, EventColumnsView, JoinedRow, JoinedRowView};
use crate::grouping::{lemma_grouped_push, lemma_logged_ids};
use crate::types::{Event, EventView, Task, TaskView};

verus! {

/// Every row is complete.
pub open spec fn all_complete(rows: Seq<EventColumnsView>) -> bool {
    forall|k: int| 0 <= k < rows.len() ==> (#[trigger] rows[k]).complete()
}

/// The events of the rows, one for each row, in the order of the rows.
pub open spec fn events_of(rows: Seq<EventColumnsView>) -> Seq<EventView> {
    rows.map_values(|r: EventColumnsView| r.event())
}

/// Reads the rows of the event table: one event for each row, in the order
/// of the rows, each field as the row holds it. A single row that is not
/// complete fails the whole read.
pub fn events_of_rows(rows: Vec<EventColumns>) -> (res: Result<Vec<Event>, StorageError>)
    ensures
        all_complete(rows.deep_view()) ==> res is Ok && res->Ok_0.deep_view() == events_of(
            rows.deep_view(),
        ),
        !all_complete(rows.deep_view()) ==> res == Err::<Vec<Event>, StorageError>(
            StorageError::MissingColumn,
        ),
{
    let ghost all = rows.deep_view();
    let mut events: Vec<Event> = Vec::new();
    for row in it: rows
        invariant
            all == rows.deep_view(),
            all == it.seq().map_values(|r: EventColumns| r@),
            all_complete(all.take(it.index() as int)),
            events.deep_view() == events_of(all.take(it.index() as int)),
    {
        let ghost k = it.index() as int;
        match row.into_event() {
            Ok(event) => {
                let ghost before = events.deep_view();
                events.push(event);
                assert(events.deep_view() =~= before.push(event@));
            },
            Err(e) => {
                assert(!all[k].complete());
                return Err(e);
            },
        }
    }
    assert(all.take(all.len() as int) =~= all);
    Ok(events)
}

/// Every row can be read: none carries part of an event.
pub open spec fn all_readable(rows: Seq<JoinedRowView>) -> bool {
    forall|k: int| 0 <= k < rows.len() ==> (#[trigger] rows[k]).readable()
}

/// The events that the rows carry for the task with key `id`, in the order
/// of the rows.
pub open spec fn events_under(rows: Seq<JoinedRowView>, id: i32) -> Seq<EventView> {
    rows.filter(|r: JoinedRowView| r.logs_under(id)).map_values(|r: JoinedRowView| r.event.event())
}

/// The keys of the tasks for which the rows carry an event, each once, in
/// the order in which the rows first name them.
pub open spec fn logged_ids(rows: Seq<JoinedRowView>) -> Seq<i32>
    decreases rows.len(),
{
    if rows.len() == 0 {
        Seq::empty()
    } else {
        let before = logged_ids(rows.drop_last());
        let last = rows.last();
        if last.has_event() && !before.contains(last.task_id) {
            before.push(last.task_id)
        } else {
            before
        }
    }
}

/// Row `k` is the first that carries an event of the task with key `id`.
pub open spec fn first_under(rows: Seq<JoinedRowView>, id: i32, k: int) -> bool {
    &&& 0 <= k < rows.len()
    &&& rows[k].logs_under(id)
    &&& forall|j: int| 0 <= j < k ==> !(#[trigger] rows[j]).logs_under(id)
}

/// The task with key `id` as the rows describe it: named as the first row
/// that carries one of its events names it, with all its events.
pub open spec fn task_under(rows: Seq<JoinedRowView>, id: i32) -> TaskView {
    let head = rows[choose|k: int| first_under(rows, id, k)];
    TaskView {
        id,
        name: head.task_name,
        details: head.task_details,
        events: Some(events_under(rows, id)),
    }
}

/// The tasks that the rows of the join describe: one for each task that has
/// an event, in the order of `logged_ids`. A task without events is not
/// among them.
pub open spec fn grouped(rows: Seq<JoinedRowView>) -> Seq<TaskView> {
    logged_ids(rows).map_values(|id: i32| task_under(rows, id))
}

/// No two tasks share a key, and each task holds at least one event.
pub open spec fn well_grouped(tasks: Seq<TaskView>) -> bool {
    &&& forall|i: int, j: int|
        0 <= i < j < tasks.len() ==> (#[trigger] tasks[i]).id != (#[trigger] tasks[j]).id
    &&& forall|i: int|
        0 <= i < tasks.len() ==> (#[trigger] tasks[i]).events is Some && tasks[i].events->0.len()
            > 0
}

/// What the grouping has gathered from the first `k` rows: a head and a
/// bucket of events for each task that those rows are grouped into, and
/// where to find them.
spec fn gathered(
    rows: Seq<JoinedRowView>,
    k: int,
    index: Map<i32, usize>,
    heads: Seq<Task>,
    buckets: Seq<Vec<Event>>,
) -> bool {
    let ids = logged_ids(rows.take(k));
    let tasks = grouped(rows.take(k));
    &&& heads.len() == ids.len()
    &&& buckets.len() == ids.len()
    &&& forall|i: int|
        0 <= i < ids.len() ==> {
            &&& (#[trigger] heads[i]).id == ids[i]
            &&& heads[i].name@ == tasks[i].name
            &&& heads[i].details.deep_view() == tasks[i].details
        }
    &&& forall|i: int|
        0 <= i < ids.len() ==> Some((#[trigger] buckets[i]).deep_view()) == tasks[i].events
    &&& forall|id: i32| #[trigger] index.contains_key(id) <==> ids.contains(id)
    &&& forall|id: i32| #[trigger]
        index.contains_key(id) ==> index[id] < ids.len() && ids[index[id] as int] == id
}

/// Groups the rows of the join into tasks. Each task that has at least one
/// event comes out once, with all the events that the rows carry for it, in
/// the order of the rows; the tasks come in the order in which the rows
/// first name them. A row that carries no event adds nothing, so a task
/// without events does not come out. A row that carries an event without
/// its task id, its time stamp or its duration fails the whole read.
pub fn tasks_of_rows(rows: Vec<JoinedRow>) -> (res: Result<Vec<Task>, StorageError>)
    ensures
        all_readable(rows.deep_view()) ==> res is Ok && res->Ok_0.deep_view() == grouped(
            rows.deep_view(),
        ),
        !all_readable(rows.deep_view()) ==> res == Err::<Vec<Task>, StorageError>(
            StorageError::MissingColumn,
        ),
{
    broadcast use vstd::std_specs::hash::group_hash_axioms;

    let ghost all = rows.deep_view();
    let mut index: HashMap<i32, usize> = HashMap::new();
    let mut heads: Vec<Task> = Vec::new();
    let mut buckets: Vec<Vec<Event>> = Vec::new();
    for row in it: rows
        invariant
            all == rows.deep_view(),
            all == it.seq().map_values(|r: JoinedRow| r@),
            all_readable(all.take(it.index() as int)),
            gathered(all, it.index() as int, index@, heads@, buckets@),
    {
        let ghost k = it.index() as int;
        let ghost ids = logged_ids(all.take(k));
        proof {
            assert(all.take(k + 1) =~= all.take(k).push(all[k]));
            assert(all.take(k + 1).drop_last() =~= all.take(k));
            lemma_grouped_push(all.take(k), all[k]);
            lemma_logged_ids(all.take(k));
        }
        let JoinedRow { task_id, task_name, task_details, event } = row;
        if event.id.is_some() {
            match event.into_event() {
                Err(e) => {
                    return Err(e);
                },
                Ok(logged) => {
                    let found = match index.get(&task_id) {
                        Some(at) => Some(*at),
                        None => None,
                    };
                    match found {
                        Some(at) => {
                            let mut bucket: Vec<Event> = Vec::new();
                            buckets.set_and_swap(at, &mut bucket);
                            let ghost before = bucket.deep_view();
                            bucket.push(logged);
                            assert(bucket.deep_view() =~= before.push(logged@));
                            buckets.set(at, bucket);
                        },
                        None => {
                            let at = heads.len();
                            index.insert(task_id, at);
                            heads.push(
                                Task { id: task_id, name: task_name, details: task_details, events: None },
                            );
                            let mut bucket: Vec<Event> = Vec::new();
                            bucket.push(logged);
                            assert(bucket.deep_view() =~= seq![logged@]);
                            buckets.push(bucket);
                            proof {
                                let next_ids = logged_ids(all.take(k + 1));
                                assert forall|id: i32| #[trigger]
                                    index@.contains_key(id) implies next_ids.contains(id) by {
                                    if id == task_id {
                                        assert(next_ids[ids.len() as int] == id);
                                    } else {
                                        let i = choose|i: int| 0 <= i < ids.len() && ids[i] == id;
                                        assert(next_ids[i] == id);
                                    }
                                }
                            }
                        },
                    }
                },
            }
        }
    }
    proof {
        assert(all.take(all.len() as int) =~= all);
    }
    let mut tasks: Vec<Task> = Vec::new();
    let mut at: usize = 0;
    for head in it: heads
        invariant
            at == it.index(),
            it.seq() == heads@,
            heads.len() == grouped(all).len(),
            buckets.len() == grouped(all).len(),
            forall|i: int|
                0 <= i < heads.len() ==> {
                    &&& (#[trigger] heads[i]).id == grouped(all)[i].id
                    &&& heads[i].name@ == grouped(all)[i].name
                    &&& heads[i].details.deep_view() == grouped(all)[i].details
                },
            forall|i: int|
                at <= i < buckets.len() ==> Some((#[trigger] buckets[i]).deep_view()) == grouped(
                    all,
                )[i].events,
            tasks.deep_view() == grouped(all).take(at as int),
    {
        let mut bucket: Vec<Event> = Vec::new();
        buckets.set_and_swap(at, &mut bucket);
        let Task { id, name, details, events: _ } = head;
        let task = Task { id, name, details, events: Some(bucket) };
        let ghost before = tasks.deep_view();
        tasks.push(task);
        assert(tasks.deep_view() =~= before.push(task@));
        at = at + 1;
    }
    Ok(tasks)
}

} // verus!
