//! The join of both tables as the store takes it to be, and what a read of
//! all tasks makes of it.
//!
//! Nothing here is claimed of the engine. `Tables::is_joined_as` says which
//! rows a left outer join of the task table with the event table is taken
//! to hold, in whatever order; the proofs below hold of every such order.

use vstd::prelude::*;
use crate::grouping::{lemma_first_row, lemma_grouped_is_well_grouped, lemma_logged_ids};
use crate::read::{all_readable, events_of, events_under, first_under, grouped, logged_ids};
use crate::rows::{EventColumnsView, JoinedRowView};
use crate::seqs::{lemma_filter_no_duplicates, lemma_filter_single, lemma_same_elements_same_length};
use crate::tables::{Tables, TaskRow};
use crate::types::{EventView, TaskView};
use crate::write::event_row_for;

verus! {

impl TaskRow {
    /// The row of the join that holds the task beside one of its events.
    pub open spec fn beside(self, event: EventColumnsView) -> JoinedRowView {
        JoinedRowView { task_id: self.id, task_name: self.name, task_details: self.details, event }
    }

    /// The row of the join that holds the task and no event.
    pub open spec fn alone(self) -> JoinedRowView {
        self.beside(
            EventColumnsView {
                id: None,
                task_id: None,
                notes: None,
                time_stamp: None,
                duration: None,
            },
        )
    }
}

/// One of the events holds the notes, the time stamp and the duration of
/// `entry`.
pub open spec fn holds_entry(events: Seq<EventView>, entry: (Seq<char>, Seq<char>, Seq<char>)) -> bool {
    exists|k: int|
        0 <= k < events.len() && (#[trigger] events[k]).notes == Some(entry.0) && events[k].time_stamp
            == entry.1 && events[k].duration == entry.2
}

/// The tasks with the name `name` among the tasks handed out.
pub open spec fn named(tasks: Seq<TaskView>, name: Seq<char>) -> Seq<TaskView> {
    tasks.filter(|t: TaskView| t.name == name)
}

impl Tables {
    /// Event row `m` names task row `i`.
    pub open spec fn matches(self, i: int, m: int) -> bool {
        &&& 0 <= i < self.tasks.len()
        &&& 0 <= m < self.events.len()
        &&& self.events[m].task_id == Some(self.tasks[i].id)
    }

    /// No event row names task row `i`.
    pub open spec fn idle(self, i: int) -> bool {
        &&& 0 <= i < self.tasks.len()
        &&& forall|m: int| 0 <= m < self.events.len() ==> !self.matches(i, m)
    }

    /// `row` is a row of the left outer join: a task row beside an event
    /// row that names it, or a task row alone that no event row names.
    pub open spec fn joins(self, row: JoinedRowView) -> bool {
        ||| exists|i: int, m: int| #[trigger]
            self.matches(i, m) && row == self.tasks[i].beside(self.events[m])
        ||| exists|i: int| #[trigger] self.idle(i) && row == self.tasks[i].alone()
    }

    /// `rows` are the rows of the left outer join, each once, in some
    /// order.
    pub open spec fn is_joined_as(self, rows: Seq<JoinedRowView>) -> bool {
        &&& rows.no_duplicates()
        &&& forall|row: JoinedRowView| rows.contains(row) <==> self.joins(row)
    }

    /// `task` is what a read of all tasks makes of task row `i`: the row's
    /// key, name and details, and the task's events as a read of all events
    /// hands them out, all of them and none twice, in some order.
    pub open spec fn reads_as(self, i: int, task: TaskView) -> bool {
        &&& 0 <= i < self.tasks.len()
        &&& task.id == self.tasks[i].id
        &&& task.name == self.tasks[i].name
        &&& task.details == self.tasks[i].details
        &&& task.events is Some
        &&& task.events->0.len() == self.events_under(task.id).len()
        &&& task.events->0.no_duplicates()
        &&& forall|e: EventView| task.events->0.contains(e) <==> self.events_under(task.id).contains(e)
    }

    /// `task` is what a read of all tasks makes of one of the task rows.
    pub open spec fn reads(self, task: TaskView) -> bool {
        exists|i: int| self.reads_as(i, task)
    }

    /// A row of the join that carries an event under the key of task row
    /// `i` holds that task row beside an event row that names it.
    proof fn lemma_row_under(self, i: int, row: JoinedRowView) -> (m: int)
        requires
            self.valid(),
            0 <= i < self.tasks.len(),
            self.joins(row),
            row.logs_under(self.tasks[i].id),
        ensures
            self.matches(i, m),
            row == self.tasks[i].beside(self.events[m]),
            self.events[m].complete(),
    {
        let (j, m) = choose|j: int, m: int| #[trigger]
            self.matches(j, m) && row == self.tasks[j].beside(self.events[m]);
        assert(j == i) by {
            if j < i {
                assert(self.tasks[j].id != self.tasks[i].id);
            }
            if i < j {
                assert(self.tasks[i].id != self.tasks[j].id);
            }
        }
        m
    }

    /// Under the key of a task row, the rows of the join carry the events
    /// that a read of all events hands out under that key: all of them and
    /// none twice.
    proof fn lemma_events_of_join(self, rows: Seq<JoinedRowView>, i: int)
        requires
            self.valid(),
            self.is_joined_as(rows),
            0 <= i < self.tasks.len(),
        ensures
            events_under(rows, self.tasks[i].id).len() == self.events_under(self.tasks[i].id).len(),
            events_under(rows, self.tasks[i].id).no_duplicates(),
            forall|e: EventView|
                events_under(rows, self.tasks[i].id).contains(e) <==> self.events_under(
                    self.tasks[i].id,
                ).contains(e),
    {
        let id = self.tasks[i].id;
        let carries = |r: JoinedRowView| r.logs_under(id);
        let under = |e: EventView| e.task_id == id;
        let kept = rows.filter(carries);
        let read = events_under(rows, id);
        let stored = self.events_under(id);
        let all = events_of(self.events);
        assert forall|e: EventView| read.contains(e) implies stored.contains(e) by {
            let j = choose|j: int| 0 <= j < read.len() && read[j] == e;
            rows.lemma_filter_pred(carries, j);
            assert(kept.contains(kept[j]));
            rows.lemma_filter_contains_rev(carries, kept[j]);
            let m = self.lemma_row_under(i, kept[j]);
            assert(all[m] == e);
            all.lemma_filter_contains(under, m);
        }
        assert forall|e: EventView| stored.contains(e) implies read.contains(e) by {
            let j = choose|j: int| 0 <= j < stored.len() && stored[j] == e;
            all.lemma_filter_pred(under, j);
            all.lemma_filter_contains_rev(under, e);
            let m = choose|m: int| 0 <= m < all.len() && all[m] == e;
            assert(self.events[m].complete());
            assert(self.matches(i, m));
            let row = self.tasks[i].beside(self.events[m]);
            assert(self.joins(row));
            assert(rows.contains(row));
            let k = choose|k: int| 0 <= k < rows.len() && rows[k] == row;
            rows.lemma_filter_contains(carries, k);
            let at = choose|at: int| 0 <= at < kept.len() && kept[at] == row;
            assert(read[at] == e);
        }
        assert(read.no_duplicates()) by {
            lemma_filter_no_duplicates(rows, carries);
            assert forall|a: int, b: int| 0 <= a < read.len() && 0 <= b < read.len() && a
                != b implies read[a] != read[b] by {
                rows.lemma_filter_pred(carries, a);
                rows.lemma_filter_pred(carries, b);
                assert(kept.contains(kept[a]) && kept.contains(kept[b]));
                rows.lemma_filter_contains_rev(carries, kept[a]);
                rows.lemma_filter_contains_rev(carries, kept[b]);
                let ma = self.lemma_row_under(i, kept[a]);
                let mb = self.lemma_row_under(i, kept[b]);
                if read[a] == read[b] {
                    assert(self.events[ma] == self.events[mb]);
                    assert(kept[a] == kept[b]);
                }
            }
        }
        assert(stored.no_duplicates()) by {
            assert forall|a: int, b: int| 0 <= a < all.len() && 0 <= b < all.len() && a
                != b implies all[a] != all[b] by {
                assert(self.events[a].complete() && self.events[b].complete());
                if a < b {
                    assert(self.events[a].id != self.events[b].id);
                } else {
                    assert(self.events[b].id != self.events[a].id);
                }
            }
            lemma_filter_no_duplicates(all, under);
        }
        lemma_same_elements_same_length(read, stored);
    }

    /// A read of all tasks on the join, whatever the order of its rows:
    /// where the tables are valid, each row can be read; each task that
    /// comes out is a task row that has at least one event, with the row's
    /// name and details and with all its events, none twice; and each task
    /// row that has an event comes out. A task without events does not.
    pub proof fn lemma_join_is_read(self, rows: Seq<JoinedRowView>)
        requires
            self.valid(),
            self.is_joined_as(rows),
        ensures
            all_readable(rows),
            forall|at: int| 0 <= at < grouped(rows).len() ==> self.reads(#[trigger] grouped(rows)[at]),
            forall|i: int|
                0 <= i < self.tasks.len() && self.events_under((#[trigger] self.tasks[i]).id).len()
                    > 0 ==> exists|at: int|
                    0 <= at < grouped(rows).len() && self.reads_as(i, grouped(rows)[at]),
    {
        let ids = logged_ids(rows);
        lemma_logged_ids(rows);
        assert forall|k: int| 0 <= k < rows.len() implies (#[trigger] rows[k]).readable() by {
            assert(rows.contains(rows[k]));
            if rows[k].has_event() {
                let (i, m) = choose|i: int, m: int| #[trigger]
                    self.matches(i, m) && rows[k] == self.tasks[i].beside(self.events[m]);
                assert(self.events[m].complete());
            }
        }
        assert forall|at: int| 0 <= at < grouped(rows).len() implies self.reads(
            #[trigger] grouped(rows)[at],
        ) by {
            let i = self.lemma_task_of_join(rows, at);
        }
        assert forall|i: int|
            0 <= i < self.tasks.len() && self.events_under((#[trigger] self.tasks[i]).id).len()
                > 0 implies exists|at: int|
            0 <= at < grouped(rows).len() && self.reads_as(i, grouped(rows)[at]) by {
            let id = self.tasks[i].id;
            self.lemma_events_of_join(rows, i);
            let e = self.events_under(id)[0];
            assert(self.events_under(id).contains(e));
            assert(events_under(rows, id).contains(e));
            let found = events_under(rows, id);
            let j = choose|j: int| 0 <= j < found.len() && found[j] == e;
            let carries = |r: JoinedRowView| r.logs_under(id);
            let kept = rows.filter(carries);
            rows.lemma_filter_pred(carries, j);
            assert(kept.contains(kept[j]));
            rows.lemma_filter_contains_rev(carries, kept[j]);
            assert(ids.contains(id));
            let at = choose|at: int| 0 <= at < ids.len() && ids[at] == id;
            let again = self.lemma_task_of_join(rows, at);
            assert(again == i) by {
                if again < i {
                    assert(self.tasks[again].id != self.tasks[i].id);
                }
                if i < again {
                    assert(self.tasks[i].id != self.tasks[again].id);
                }
            }
        }
    }

    /// The task that comes out at `at` is what a read makes of some task
    /// row; the result is where that row stands.
    proof fn lemma_task_of_join(self, rows: Seq<JoinedRowView>, at: int) -> (i: int)
        requires
            self.valid(),
            self.is_joined_as(rows),
            0 <= at < grouped(rows).len(),
        ensures
            self.reads_as(i, grouped(rows)[at]),
    {
        let ids = logged_ids(rows);
        let id = ids[at];
        assert(ids.contains(id));
        lemma_first_row(rows, id);
        let first = choose|k: int| first_under(rows, id, k);
        assert(rows.contains(rows[first]));
        let (i, m) = choose|i: int, m: int| #[trigger]
            self.matches(i, m) && rows[first] == self.tasks[i].beside(self.events[m]);
        self.lemma_events_of_join(rows, i);
        i
    }
}

/// Two entries under one name, read back, whatever the order in which the
/// engine hands the rows of the join over: a read of all tasks succeeds and
/// hands out exactly one task with that name, with two events more than the
/// task had, among them one for each of the two entries. Where the name was
/// new, the task has the empty string as its details and exactly two
/// events.
pub proof fn lemma_two_entries_are_read_in_one_task(
    start: Tables,
    between: Tables,
    end: Tables,
    rows: Seq<JoinedRowView>,
    name: Seq<char>,
    first: (Seq<char>, Seq<char>, Seq<char>),
    second: (Seq<char>, Seq<char>, Seq<char>),
)
    requires
        start.valid(),
        start.logged(between, name, first.0, first.1, first.2),
        between.logged(end, name, second.0, second.1, second.2),
        end.is_joined_as(rows),
    ensures
        all_readable(rows),
        named(grouped(rows), name).len() == 1,
        ({
            let task = named(grouped(rows), name)[0];
            &&& task.events is Some
            &&& task.events->0.len() == start.events_under(task.id).len() + 2
            &&& holds_entry(task.events->0, first)
            &&& holds_entry(task.events->0, second)
            &&& !start.names(name) ==> task.events->0.len() == 2 && task.details == Some(
                Seq::<char>::empty(),
            )
        }),
{
    let (id, first_event) = start.lemma_logged(between, name, first.0, first.1, first.2);
    let (again, second_event) = between.lemma_logged(end, name, second.0, second.1, second.2);
    start.lemma_with_event(event_row_for(id, first.0, first.1, first.2), first_event, id);
    between.lemma_with_event(event_row_for(id, second.0, second.1, second.2), second_event, id);
    if !start.names(name) {
        start.lemma_no_events_without_task(id);
    }
    end.lemma_join_is_read(rows);
    lemma_grouped_is_well_grouped(rows);
    let i = choose|i: int| 0 <= i < end.tasks.len() && (#[trigger] end.tasks[i]).name == name;
    end.lemma_answer(name, i);
    assert(end.tasks[i].id == id);
    let at = choose|at: int| 0 <= at < grouped(rows).len() && end.reads_as(i, grouped(rows)[at]);
    let is_named = |t: TaskView| t.name == name;
    assert forall|other: int| 0 <= other < grouped(rows).len() && other != at implies !is_named(
        #[trigger] grouped(rows)[other],
    ) by {
        let j = choose|j: int| end.reads_as(j, grouped(rows)[other]);
        if other < at {
            assert(grouped(rows)[other].id != grouped(rows)[at].id);
        } else {
            assert(grouped(rows)[at].id != grouped(rows)[other].id);
        }
        if j < i {
            assert(end.tasks[j].name != end.tasks[i].name);
        }
        if i < j {
            assert(end.tasks[i].name != end.tasks[j].name);
        }
    }
    lemma_filter_single(grouped(rows), is_named, at);
    let stored = end.events_under(id);
    let read = grouped(rows)[at].events->0;
    assert(read.contains(stored[stored.len() - 2]) && read.contains(stored[stored.len() - 1]));
    let one = choose|k: int| 0 <= k < read.len() && read[k] == stored[stored.len() - 2];
    let two = choose|k: int| 0 <= k < read.len() && read[k] == stored[stored.len() - 1];
    assert(read[one].notes == Some(first.0) && read[two].notes == Some(second.0));
    if !start.names(name) {
        assert(i == start.tasks.len()) by {
            if i < start.tasks.len() {
                assert(start.tasks[i].name == name);
            }
        }
    }
}

} // verus!
