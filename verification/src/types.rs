//! What the store hands out: tasks, and the events logged under them.

use vstd::prelude::*;

verus! {

/// One logged occurrence of work under a task.
#[derive(Debug, Clone, PartialEq, Eq)]
pub struct Event {
    /// The key that storage gave the event.
    pub id: i32,
    /// The key of the task that the event belongs to.
    pub task_id: i32,
    /// Free text; may be absent.
    pub notes: Option<String>,
    /// When the work happened, as the caller wrote it.
    pub time_stamp: String,
    /// How long it took, as the caller wrote it.
    pub duration: String,
}

/// An `Event` as a mathematical value.
pub struct EventView {
    pub id: i32,
    pub task_id: i32,
    pub notes: Option<Seq<char>>,
    pub time_stamp: Seq<char>,
    pub duration: Seq<char>,
}

impl View for Event {
    type V = EventView;

    open spec fn view(&self) -> EventView {
        EventView {
            id: self.id,
            task_id: self.task_id,
            notes: self.notes.deep_view(),
            time_stamp: self.time_stamp@,
            duration: self.duration@,
        }
    }
}

impl DeepView for Event {
    type V = EventView;

    open spec fn deep_view(&self) -> EventView {
        self@
    }
}

/// A named unit of work.
#[derive(Debug, Clone, PartialEq, Eq)]
pub struct Task {
    /// The key that storage gave the task.
    pub id: i32,
    /// The name by which the task is found again; compared exactly.
    pub name: String,
    /// Free text; may be absent.
    pub details: Option<String>,
    /// The events logged under the task. `None` where the task was built
    /// from its own row alone; filled by the read that joins both tables.
    pub events: Option<Vec<Event>>,
}

/// A `Task` as a mathematical value.
pub struct TaskView {
    pub id: i32,
    pub name: Seq<char>,
    pub details: Option<Seq<char>>,
    pub events: Option<Seq<EventView>>,
}

impl View for Task {
    type V = TaskView;

    open spec fn view(&self) -> TaskView {
        TaskView {
            id: self.id,
            name: self.name@,
            details: self.details.deep_view(),
            events: self.events.deep_view(),
        }
    }
}

impl DeepView for Task {
    type V = TaskView;

    open spec fn deep_view(&self) -> TaskView {
        self@
    }
}

} // verus!
