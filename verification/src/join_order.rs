//! That valid tables have a join: one order in which its rows may come.

use vstd::prelude::*;
use crate::rows::{EventColumnsView, JoinedRowView};
use crate::seqs::lemma_filter_no_duplicates;
use crate::tables::{Tables, TaskRow};

verus! {

/// The event rows that name the task with key `id`, in the order of the
/// rows.
pub open spec fn rows_under(events: Seq<EventColumnsView>, id: i32) -> Seq<EventColumnsView> {
    events.filter(|e: EventColumnsView| e.task_id == Some(id))
}

/// The rows that the left outer join holds for one task: the task beside
/// each event row that names it, or the task alone where none does.
pub open spec fn rows_of(task: TaskRow, events: Seq<EventColumnsView>) -> Seq<JoinedRowView> {
    if rows_under(events, task.id).len() == 0 {
        seq![task.alone()]
    } else {
        rows_under(events, task.id).map_values(|e: EventColumnsView| task.beside(e))
    }
}

/// The rows of the left outer join in one of their orders: task by task,
/// and for each task event by event.
pub open spec fn joined(tasks: Seq<TaskRow>, events: Seq<EventColumnsView>) -> Seq<JoinedRowView>
    decreases tasks.len(),
{
    if tasks.len() == 0 {
        Seq::empty()
    } else {
        joined(tasks.drop_last(), events) + rows_of(tasks.last(), events)
    }
}

impl Tables {
    /// No two task rows share a key, and no event row comes twice.
    pub open spec fn keyed(self) -> bool {
        &&& forall|i: int, j: int|
            0 <= i < j < self.tasks.len() ==> (#[trigger] self.tasks[i]).id != (
            #[trigger] self.tasks[j]).id
        &&& self.events.no_duplicates()
    }

    /// `row` is a row that the left outer join holds for task row `i`.
    pub open spec fn joins_at(self, i: int, row: JoinedRowView) -> bool {
        ||| exists|m: int| #[trigger] self.matches(i, m) && row == self.tasks[i].beside(self.events[m])
        ||| self.idle(i) && row == self.tasks[i].alone()
    }

    /// `rows_of` holds the rows that the join holds for task row `i`, each
    /// once.
    proof fn lemma_rows_of(self, i: int)
        requires
            self.keyed(),
            0 <= i < self.tasks.len(),
        ensures
            rows_of(self.tasks[i], self.events).no_duplicates(),
            forall|row: JoinedRowView|
                rows_of(self.tasks[i], self.events).contains(row) <==> self.joins_at(i, row),
    {
        let task = self.tasks[i];
        let names = |e: EventColumnsView| e.task_id == Some(task.id);
        let own = rows_under(self.events, task.id);
        let rows = rows_of(task, self.events);
        lemma_filter_no_duplicates(self.events, names);
        assert forall|m: int| self.matches(i, m) implies own.contains(self.events[m]) by {
            self.events.lemma_filter_contains(names, m);
        }
        assert forall|j: int| 0 <= j < own.len() implies exists|m: int| #[trigger]
            self.matches(i, m) && (#[trigger] own[j]) == self.events[m] by {
            self.events.lemma_filter_pred(names, j);
            assert(own.contains(own[j]));
            self.events.lemma_filter_contains_rev(names, own[j]);
            let m = choose|m: int| 0 <= m < self.events.len() && self.events[m] == own[j];
            assert(self.matches(i, m));
        }
        assert forall|row: JoinedRowView| rows.contains(row) implies self.joins_at(i, row) by {
            let j = choose|j: int| 0 <= j < rows.len() && rows[j] == row;
            if own.len() > 0 {
                let m = choose|m: int| #[trigger] self.matches(i, m) && own[j] == self.events[m];
                assert(self.matches(i, m) && row == task.beside(self.events[m]));
            } else {
                assert forall|m: int| 0 <= m < self.events.len() implies !self.matches(i, m) by {
                    if self.matches(i, m) {
                        assert(own.contains(self.events[m]));
                    }
                }
            }
        }
        assert forall|row: JoinedRowView| self.joins_at(i, row) implies rows.contains(row) by {
            if self.idle(i) && row == task.alone() {
                if own.len() > 0 {
                    let m = choose|m: int| #[trigger] self.matches(i, m) && own[0] == self.events[m];
                }
                assert(rows[0] == row);
            } else {
                let m = choose|m: int| #[trigger]
                    self.matches(i, m) && row == task.beside(self.events[m]);
                assert(own.contains(self.events[m]));
                let j = choose|j: int| 0 <= j < own.len() && own[j] == self.events[m];
                assert(rows[j] == row);
            }
        }
        assert forall|a: int, b: int| 0 <= a < rows.len() && 0 <= b < rows.len() && a
            != b implies rows[a] != rows[b] by {
            if own.len() > 0 {
                assert(own[a] != own[b]);
            }
        }
    }

    /// The rows of `joined` are the rows of the join, each once.
    proof fn lemma_joined(self)
        requires
            self.keyed(),
        ensures
            self.is_joined_as(joined(self.tasks, self.events)),
        decreases self.tasks.len(),
    {
        let rows = joined(self.tasks, self.events);
        if self.tasks.len() > 0 {
            let last = self.tasks.len() - 1;
            let before = Tables { tasks: self.tasks.drop_last(), events: self.events };
            let front = joined(before.tasks, self.events);
            let own = rows_of(self.tasks[last], self.events);
            before.lemma_joined();
            self.lemma_rows_of(last);
            assert forall|i: int, m: int| before.matches(i, m) <==> self.matches(i, m) && i
                < last by {
                if 0 <= i < last {
                    assert(before.tasks[i] == self.tasks[i]);
                }
            }
            assert forall|i: int| before.idle(i) <==> self.idle(i) && i < last by {
                if 0 <= i < last {
                    assert(before.tasks[i] == self.tasks[i]);
                    if self.idle(i) {
                        assert forall|m: int| 0 <= m < before.events.len() implies !before.matches(
                            i,
                            m,
                        ) by {
                            assert(!self.matches(i, m));
                        }
                    }
                    if before.idle(i) {
                        assert forall|m: int| 0 <= m < self.events.len() implies !self.matches(
                            i,
                            m,
                        ) by {
                            assert(!before.matches(i, m));
                        }
                    }
                }
            }
            assert forall|row: JoinedRowView| self.joins(row) <==> before.joins(row)
                || self.joins_at(last, row) by {
                if self.joins(row) {
                    if exists|i: int, m: int| #[trigger]
                        self.matches(i, m) && row == self.tasks[i].beside(self.events[m]) {
                        let (i, m) = choose|i: int, m: int| #[trigger]
                            self.matches(i, m) && row == self.tasks[i].beside(self.events[m]);
                        if i < last {
                            assert(before.matches(i, m) && row == before.tasks[i].beside(
                                before.events[m],
                            ));
                        }
                    } else {
                        let i = choose|i: int| #[trigger] self.idle(i) && row == self.tasks[i].alone();
                        if i < last {
                            assert(before.idle(i) && row == before.tasks[i].alone());
                        }
                    }
                }
                if before.joins(row) {
                    if exists|i: int, m: int| #[trigger]
                        before.matches(i, m) && row == before.tasks[i].beside(before.events[m]) {
                        let (i, m) = choose|i: int, m: int| #[trigger]
                            before.matches(i, m) && row == before.tasks[i].beside(
                                before.events[m],
                            );
                        assert(self.matches(i, m) && row == self.tasks[i].beside(self.events[m]));
                    } else {
                        let i = choose|i: int| #[trigger]
                            before.idle(i) && row == before.tasks[i].alone();
                        assert(self.idle(i) && row == self.tasks[i].alone());
                    }
                }
                if self.joins_at(last, row) {
                    if self.idle(last) && row == self.tasks[last].alone() {
                    } else {
                        let m = choose|m: int| #[trigger]
                            self.matches(last, m) && row == self.tasks[last].beside(self.events[m]);
                    }
                }
            }
            assert forall|row: JoinedRowView| rows.contains(row) <==> front.contains(row)
                || own.contains(row) by {
                if rows.contains(row) {
                    let k = choose|k: int| 0 <= k < rows.len() && rows[k] == row;
                    if k < front.len() {
                        assert(front[k] == row);
                    } else {
                        assert(own[k - front.len()] == row);
                    }
                }
                if front.contains(row) {
                    let k = choose|k: int| 0 <= k < front.len() && front[k] == row;
                    assert(rows[k] == row);
                }
                if own.contains(row) {
                    let k = choose|k: int| 0 <= k < own.len() && own[k] == row;
                    assert(rows[front.len() + k] == row);
                }
            }
            assert forall|a: int, b: int| 0 <= a < front.len() && 0 <= b < own.len() implies front[a]
                != own[b] by {
                assert(front.contains(front[a]));
                assert(own.contains(own[b]));
                assert(before.joins(front[a]));
                assert(self.joins_at(last, own[b]));
                assert(own[b].task_id == self.tasks[last].id);
                let i = if exists|i: int, m: int| #[trigger]
                    before.matches(i, m) && front[a] == before.tasks[i].beside(before.events[m]) {
                    let (i, m) = choose|i: int, m: int| #[trigger]
                        before.matches(i, m) && front[a] == before.tasks[i].beside(
                            before.events[m],
                        );
                    i
                } else {
                    choose|i: int| #[trigger] before.idle(i) && front[a] == before.tasks[i].alone()
                };
                assert(front[a].task_id == self.tasks[i].id);
                assert(self.tasks[i].id != self.tasks[last].id);
            }
            vstd::seq_lib::lemma_no_dup_in_concat(front, own);
        } else {
            assert forall|row: JoinedRowView| !self.joins(row) by {
                if exists|i: int, m: int| #[trigger]
                    self.matches(i, m) && row == self.tasks[i].beside(self.events[m]) {
                    let (i, m) = choose|i: int, m: int| #[trigger]
                        self.matches(i, m) && row == self.tasks[i].beside(self.events[m]);
                }
                if exists|i: int| #[trigger] self.idle(i) && row == self.tasks[i].alone() {
                    let i = choose|i: int| #[trigger] self.idle(i) && row == self.tasks[i].alone();
                }
            }
        }
    }

    /// Valid tables have a join: `joined` holds its rows in one order.
    pub proof fn lemma_join_exists(self)
        requires
            self.valid(),
        ensures
            self.is_joined_as(joined(self.tasks, self.events)),
    {
        assert(self.events.no_duplicates()) by {
            assert forall|k: int, l: int| 0 <= k < self.events.len() && 0 <= l < self.events.len()
                && k != l implies self.events[k] != self.events[l] by {
                if k < l {
                    assert(self.events[k].id != self.events[l].id);
                } else {
                    assert(self.events[l].id != self.events[k].id);
                }
            }
        }
        self.lemma_joined();
    }
}

} // verus!
