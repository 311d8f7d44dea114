//! The two tables as the store takes them to be, and what follows for the
//! store's logic when the engine keeps them so.
//!
//! Nothing here is claimed of the engine. `Tables` says what a lookup, an
//! insert and a read are taken to mean; the proofs below then hold of the
//! decisions in `write` and of the reading in `read`, on every pair of
//! tables.

use vstd::prelude::*;
use crate::read::{all_complete, events_of};
use crate::rows::{EventColumnsView, NewEventView, NewTaskView};
use crate::seqs::{lemma_filter_none, lemma_filter_push, lemma_filter_single};
use crate::types::EventView;
use crate::write::{event_row_for, fits_key, known_task, task_row_for, task_written};

verus! {

/// The events under the key `id` among the events of the rows, in the order
/// of the rows.
pub open spec fn stored_under(events: Seq<EventColumnsView>, id: i32) -> Seq<EventView> {
    events_of(events).filter(|e: EventView| e.task_id == id)
}

/// One row of the task table.
pub struct TaskRow {
    pub id: i32,
    pub name: Seq<char>,
    pub details: Option<Seq<char>>,
}

/// The rows of both tables, each table in the order of its rows.
pub struct Tables {
    pub tasks: Seq<TaskRow>,
    pub events: Seq<EventColumnsView>,
}

impl Tables {
    /// Both tables without a row.
    pub open spec fn empty() -> Tables {
        Tables { tasks: Seq::empty(), events: Seq::empty() }
    }

    /// Some task has the key `id`.
    pub open spec fn has_task(self, id: i32) -> bool {
        exists|i: int| 0 <= i < self.tasks.len() && (#[trigger] self.tasks[i]).id == id
    }

    /// Some event has the key `id`.
    pub open spec fn has_event(self, id: i32) -> bool {
        exists|k: int| 0 <= k < self.events.len() && (#[trigger] self.events[k]).id == Some(id)
    }

    /// Some task has the name `name`.
    pub open spec fn names(self, name: Seq<char>) -> bool {
        exists|i: int| 0 <= i < self.tasks.len() && (#[trigger] self.tasks[i]).name == name
    }

    /// The tables are as the store leaves them: no two tasks share a key or
    /// a name, no two events share a key, every event row is complete and
    /// belongs to a task that is there.
    pub open spec fn valid(self) -> bool {
        &&& forall|i: int, j: int|
            0 <= i < j < self.tasks.len() ==> (#[trigger] self.tasks[i]).id != (
            #[trigger] self.tasks[j]).id
        &&& forall|i: int, j: int|
            0 <= i < j < self.tasks.len() ==> (#[trigger] self.tasks[i]).name != (
            #[trigger] self.tasks[j]).name
        &&& all_complete(self.events)
        &&& forall|k: int, l: int|
            0 <= k < l < self.events.len() ==> (#[trigger] self.events[k]).id != (
            #[trigger] self.events[l]).id
        &&& forall|k: int|
            0 <= k < self.events.len() ==> self.has_task((#[trigger] self.events[k]).task_id->0)
    }

    /// What the lookup by name answers: the key of a task that has the
    /// name, or no row.
    pub open spec fn answer(self, name: Seq<char>) -> Option<Option<i32>> {
        if self.names(name) {
            let i = choose|i: int| 0 <= i < self.tasks.len() && (#[trigger] self.tasks[i]).name == name;
            Some(Some(self.tasks[i].id))
        } else {
            None
        }
    }

    /// The tables after the insert of a task row to which the engine gave
    /// the key `id`.
    pub open spec fn with_task(self, row: NewTaskView, id: i32) -> Tables {
        Tables {
            tasks: self.tasks.push(TaskRow { id, name: row.name, details: Some(row.details) }),
            events: self.events,
        }
    }

    /// The tables after the insert of an event row to which the engine gave
    /// the key `id`.
    pub open spec fn with_event(self, row: NewEventView, id: i32) -> Tables {
        Tables {
            tasks: self.tasks,
            events: self.events.push(
                EventColumnsView {
                    id: Some(id),
                    task_id: Some(row.task_id),
                    notes: Some(row.notes),
                    time_stamp: Some(row.time_stamp),
                    duration: Some(row.duration),
                },
            ),
        }
    }

    /// `after` is what one successful `add_task` makes of these tables. The
    /// lookup is read as `known_task` reads it. Where it finds no task, the
    /// row of `task_row_for` is inserted under a row id that was not in use
    /// and that `fits_key`, and the new task's key is that of
    /// `task_written`. Then the row of `event_row_for` is inserted under a
    /// key that was not in use.
    pub open spec fn logged(
        self,
        after: Tables,
        name: Seq<char>,
        details: Seq<char>,
        now: Seq<char>,
        duration: Seq<char>,
    ) -> bool {
        match known_task(self.answer(name)) {
            Some(task_id) => exists|event_id: i32|
                !self.has_event(event_id) && after == #[trigger] self.with_event(
                    event_row_for(task_id, details, now, duration),
                    event_id,
                ),
            None => exists|rowid: i64, event_id: i32|
                fits_key(rowid) && !self.has_task(task_written(task_row_for(name), rowid).id)
                    && !self.has_event(event_id) && after == #[trigger] self.with_task(
                    task_row_for(name),
                    task_written(task_row_for(name), rowid).id,
                ).with_event(
                    event_row_for(
                        task_written(task_row_for(name), rowid).id,
                        details,
                        now,
                        duration,
                    ),
                    event_id,
                ),
        }
    }

    /// The task rows with the name `name`.
    pub open spec fn named(self, name: Seq<char>) -> Seq<TaskRow> {
        self.tasks.filter(|t: TaskRow| t.name == name)
    }

    /// The events of the task with key `id`, as a read of all events hands
    /// them out.
    pub open spec fn events_under(self, id: i32) -> Seq<EventView> {
        stored_under(self.events, id)
    }
}

impl Tables {
    /// Tables without a row are valid, and no name is a task's.
    pub proof fn lemma_empty_is_valid()
        ensures
            Tables::empty().valid(),
            forall|name: Seq<char>| !Tables::empty().names(name),
    {
    }

    /// In valid tables a name is the name of at most one task, so the
    /// lookup answers the key of the task at `at` if that task has the name.
    pub proof fn lemma_answer(self, name: Seq<char>, at: int)
        requires
            self.valid(),
            0 <= at < self.tasks.len(),
            self.tasks[at].name == name,
        ensures
            self.answer(name) == Some(Some(self.tasks[at].id)),
            self.named(name) == seq![self.tasks[at]],
    {
        lemma_filter_single(self.tasks, |t: TaskRow| t.name == name, at);
    }

    /// In valid tables no event is under a key that no task has.
    pub proof fn lemma_no_events_without_task(self, id: i32)
        requires
            self.valid(),
            !self.has_task(id),
        ensures
            self.events_under(id) == Seq::<EventView>::empty(),
    {
        lemma_filter_none(events_of(self.events), |e: EventView| e.task_id == id);
    }

    /// One more event row adds its event to the events under its task, and
    /// to no others.
    pub proof fn lemma_with_event(self, row: NewEventView, event_id: i32, id: i32)
        ensures
            self.with_event(row, event_id).events_under(id) == if row.task_id == id {
                self.events_under(id).push(
                    EventView {
                        id: event_id,
                        task_id: row.task_id,
                        notes: Some(row.notes),
                        time_stamp: row.time_stamp,
                        duration: row.duration,
                    },
                )
            } else {
                self.events_under(id)
            },
    {
        let after = self.with_event(row, event_id);
        let added = after.events.last();
        assert(events_of(after.events) =~= events_of(self.events).push(added.event()));
        lemma_filter_push(events_of(self.events), added.event(), |e: EventView| e.task_id == id);
    }

    /// What one successful `add_task` does: it leaves valid tables valid;
    /// afterwards exactly one task has the name; that task is the one that
    /// had the name before, or a new one with empty details; and one event
    /// has been added, under that task, which holds what the caller gave.
    /// The result is the task's key and the event's.
    pub proof fn lemma_logged(
        self,
        after: Tables,
        name: Seq<char>,
        details: Seq<char>,
        now: Seq<char>,
        duration: Seq<char>,
    ) -> (keys: (i32, i32))
        requires
            self.valid(),
            self.logged(after, name, details, now, duration),
        ensures
            after.valid(),
            after.names(name),
            after.answer(name) == Some(Some(keys.0)),
            after.named(name).len() == 1,
            after.named(name)[0].id == keys.0,
            self.names(name) ==> after.tasks == self.tasks && self.answer(name) == Some(
                Some(keys.0),
            ),
            !self.names(name) ==> !self.has_task(keys.0) && after.tasks == self.tasks.push(
                TaskRow { id: keys.0, name, details: Some(Seq::empty()) },
            ),
            !self.has_event(keys.1),
            after.events == self.events.push(
                EventColumnsView {
                    id: Some(keys.1),
                    task_id: Some(keys.0),
                    notes: Some(details),
                    time_stamp: Some(now),
                    duration: Some(duration),
                },
            ),
    {
        let row = match known_task(self.answer(name)) {
            Some(task_id) => {
                let event_id = choose|event_id: i32|
                    !self.has_event(event_id) && after == #[trigger] self.with_event(
                        event_row_for(task_id, details, now, duration),
                        event_id,
                    );
                let at = choose|i: int|
                    0 <= i < self.tasks.len() && (#[trigger] self.tasks[i]).name == name;
                (task_id, event_id, at)
            },
            None => {
                let (rowid, event_id) = choose|rowid: i64, event_id: i32|
                    fits_key(rowid) && !self.has_task(task_written(task_row_for(name), rowid).id)
                        && !self.has_event(event_id) && after == #[trigger] self.with_task(
                        task_row_for(name),
                        task_written(task_row_for(name), rowid).id,
                    ).with_event(
                        event_row_for(
                            task_written(task_row_for(name), rowid).id,
                            details,
                            now,
                            duration,
                        ),
                        event_id,
                    );
                (task_written(task_row_for(name), rowid).id, event_id, self.tasks.len() as int)
            },
        };
        let (task_id, event_id, at) = row;
        assert(after.valid()) by {
            assert forall|k: int| 0 <= k < after.events.len() implies after.has_task(
                (#[trigger] after.events[k]).task_id->0,
            ) by {
                if k < self.events.len() {
                    let wanted = self.events[k].task_id->0;
                    let i = choose|i: int|
                        0 <= i < self.tasks.len() && (#[trigger] self.tasks[i]).id == wanted;
                    assert(after.tasks[i].id == wanted);
                } else {
                    assert(after.tasks[at].id == task_id);
                }
            }
        }
        after.lemma_answer(name, at);
        (task_id, event_id)
    }
}

/// Two entries under one name leave exactly one task with that name, and
/// two events more under it than there were: exactly two where the name was
/// new.
pub proof fn lemma_two_entries_one_task_two_events(
    start: Tables,
    between: Tables,
    end: Tables,
    name: Seq<char>,
    first: (Seq<char>, Seq<char>, Seq<char>),
    second: (Seq<char>, Seq<char>, Seq<char>),
)
    requires
        start.valid(),
        start.logged(between, name, first.0, first.1, first.2),
        between.logged(end, name, second.0, second.1, second.2),
    ensures
        end.named(name).len() == 1,
        end.events_under(end.named(name)[0].id).len() == start.events_under(
            end.named(name)[0].id,
        ).len() + 2,
        !start.names(name) ==> end.events_under(end.named(name)[0].id).len() == 2,
{
    let (id, first_event) = start.lemma_logged(between, name, first.0, first.1, first.2);
    let (again, second_event) = between.lemma_logged(end, name, second.0, second.1, second.2);
    start.lemma_with_event(event_row_for(id, first.0, first.1, first.2), first_event, id);
    between.lemma_with_event(event_row_for(id, second.0, second.1, second.2), second_event, id);
    if !start.names(name) {
        start.lemma_no_events_without_task(id);
    }
}

/// After an entry, a read of all events succeeds and hands out the events
/// that were there, and after them one that holds the notes, the time stamp
/// and the duration that the caller gave, under the task that has the name.
pub proof fn lemma_entry_is_read_back(
    before: Tables,
    after: Tables,
    name: Seq<char>,
    details: Seq<char>,
    now: Seq<char>,
    duration: Seq<char>,
)
    requires
        before.valid(),
        before.logged(after, name, details, now, duration),
    ensures
        all_complete(after.events),
        events_of(after.events).drop_last() == events_of(before.events),
        events_of(after.events).last().notes == Some(details),
        events_of(after.events).last().time_stamp == now,
        events_of(after.events).last().duration == duration,
        after.named(name).len() == 1,
        events_of(after.events).last().task_id == after.named(name)[0].id,
{
    let keys = before.lemma_logged(after, name, details, now, duration);
}

/// A task that an entry creates has the empty string as its details,
/// whatever details the caller gave.
pub proof fn lemma_new_task_has_empty_details(
    before: Tables,
    after: Tables,
    name: Seq<char>,
    details: Seq<char>,
    now: Seq<char>,
    duration: Seq<char>,
)
    requires
        before.valid(),
        !before.names(name),
        before.logged(after, name, details, now, duration),
    ensures
        after.named(name).len() == 1,
        after.named(name)[0].details == Some(Seq::<char>::empty()),
{
    let keys = before.lemma_logged(after, name, details, now, duration);
    after.lemma_answer(name, before.tasks.len() as int);
}

} // verus!
