//! Rows as the engine hands them over, before the store has looked at them,
//! and rows as the store hands them to the engine.

use vstd::prelude::*;
use crate::error::StorageError;
use crate::types::{Event, EventView};

verus! {

/// The columns of one row of the event table. A column in which the row
/// holds no value is `None`.
#[derive(Debug, Clone, PartialEq, Eq)]
pub struct EventColumns {
    pub id: Option<i32>,
    pub task_id: Option<i32>,
    pub notes: Option<String>,
    pub time_stamp: Option<String>,
    pub duration: Option<String>,
}

/// `EventColumns` as a mathematical value.
pub struct EventColumnsView {
    pub id: Option<i32>,
    pub task_id: Option<i32>,
    pub notes: Option<Seq<char>>,
    pub time_stamp: Option<Seq<char>>,
    pub duration: Option<Seq<char>>,
}

impl EventColumnsView {
    /// Every column that an event must have holds a value. Notes may be
    /// missing.
    pub open spec fn complete(self) -> bool {
        &&& self.id is Some
        &&& self.task_id is Some
        &&& self.time_stamp is Some
        &&& self.duration is Some
    }

    /// The event that a complete row stands for: each field is the column's
    /// value, unchanged.
    pub open spec fn event(self) -> EventView
        recommends
            self.complete(),
    {
        EventView {
            id: self.id->0,
            task_id: self.task_id->0,
            notes: self.notes,
            time_stamp: self.time_stamp->0,
            duration: self.duration->0,
        }
    }
}

impl View for EventColumns {
    type V = EventColumnsView;

    open spec fn view(&self) -> EventColumnsView {
        EventColumnsView {
            id: self.id,
            task_id: self.task_id,
            notes: self.notes.deep_view(),
            time_stamp: self.time_stamp.deep_view(),
            duration: self.duration.deep_view(),
        }
    }
}

impl DeepView for EventColumns {
    type V = EventColumnsView;

    open spec fn deep_view(&self) -> EventColumnsView {
        self@
    }
}

impl EventColumns {
    /// Makes the event of a row. A row that lacks its id, its task id, its
    /// time stamp or its duration is refused: no event is made up from it.
    pub fn into_event(self) -> (res: Result<Event, StorageError>)
        ensures
            self@.complete() ==> res is Ok && res->Ok_0@ == self@.event(),
            !self@.complete() ==> res == Err::<Event, StorageError>(StorageError::MissingColumn),
    {
        let EventColumns { id, task_id, notes, time_stamp, duration } = self;
        match (id, task_id, time_stamp, duration) {
            (Some(id), Some(task_id), Some(time_stamp), Some(duration)) => Ok(
                Event { id, task_id, notes, time_stamp, duration },
            ),
            _ => Err(StorageError::MissingColumn),
        }
    }
}

/// One row of the left outer join of the task table with the event table:
/// the task's columns, and beside them the columns of one of its events, or
/// no values at all where the task has no event.
#[derive(Debug, Clone, PartialEq, Eq)]
pub struct JoinedRow {
    pub task_id: i32,
    pub task_name: String,
    pub task_details: Option<String>,
    pub event: EventColumns,
}

/// A `JoinedRow` as a mathematical value.
pub struct JoinedRowView {
    pub task_id: i32,
    pub task_name: Seq<char>,
    pub task_details: Option<Seq<char>>,
    pub event: EventColumnsView,
}

impl JoinedRowView {
    /// The row carries an event: its event side has an id.
    pub open spec fn has_event(self) -> bool {
        self.event.id is Some
    }

    /// The row carries an event of the task with key `id`.
    pub open spec fn logs_under(self, id: i32) -> bool {
        self.has_event() && self.task_id == id
    }

    /// The row can be read: it carries no event, or a complete one.
    pub open spec fn readable(self) -> bool {
        self.has_event() ==> self.event.complete()
    }
}

impl View for JoinedRow {
    type V = JoinedRowView;

    open spec fn view(&self) -> JoinedRowView {
        JoinedRowView {
            task_id: self.task_id,
            task_name: self.task_name@,
            task_details: self.task_details.deep_view(),
            event: self.event@,
        }
    }
}

impl DeepView for JoinedRow {
    type V = JoinedRowView;

    open spec fn deep_view(&self) -> JoinedRowView {
        self@
    }
}

/// The columns of a task row that the store hands to the engine; the engine
/// adds the key.
#[derive(Debug, Clone, PartialEq, Eq)]
pub struct NewTask {
    pub name: String,
    pub details: String,
}

/// A `NewTask` as a mathematical value.
pub struct NewTaskView {
    pub name: Seq<char>,
    pub details: Seq<char>,
}

impl View for NewTask {
    type V = NewTaskView;

    open spec fn view(&self) -> NewTaskView {
        NewTaskView { name: self.name@, details: self.details@ }
    }
}

/// The columns of an event row that the store hands to the engine; the
/// engine adds the key.
#[derive(Debug, Clone, PartialEq, Eq)]
pub struct NewEvent {
    pub task_id: i32,
    pub notes: String,
    pub time_stamp: String,
    pub duration: String,
}

/// A `NewEvent` as a mathematical value.
pub struct NewEventView {
    pub task_id: i32,
    pub notes: Seq<char>,
    pub time_stamp: Seq<char>,
    pub duration: Seq<char>,
}

impl View for NewEvent {
    type V = NewEventView;

    open spec fn view(&self) -> NewEventView {
        NewEventView {
            task_id: self.task_id,
            notes: self.notes@,
            time_stamp: self.time_stamp@,
            duration: self.duration@,
        }
    }
}

} // verus!
