//! The write path: what the store decides between its calls to the engine
//! when work is logged under a task's name.

use vstd::prelude::*;
use crate::error::StorageError;
use crate::rows::{NewEvent, NewEventView, NewTask, NewTaskView};
use crate::types::{Task, TaskView};

verus! {

/// The task row that is written when a name is met for the first time. Its
/// details are the empty string, whatever `details` the caller gave: those
/// go to the event, as its notes.
pub open spec fn task_row_for(name: Seq<char>) -> NewTaskView {
    NewTaskView { name, details: Seq::empty() }
}

/// The event row that is written for one logged occurrence: the caller's
/// details become the notes; time stamp and duration are kept as they came.
pub open spec fn event_row_for(
    task_id: i32,
    details: Seq<char>,
    now: Seq<char>,
    duration: Seq<char>,
) -> NewEventView {
    NewEventView { task_id, notes: details, time_stamp: now, duration }
}

/// The key under which work is logged, given what the lookup by name
/// answered: the key of the row found, or none where no row was found or
/// the row found holds no key.
pub open spec fn known_task(reply: Option<Option<i32>>) -> Option<i32> {
    match reply {
        Some(Some(id)) => Some(id),
        _ => None,
    }
}

/// A row id can serve as a task's key.
pub open spec fn fits_key(rowid: i64) -> bool {
    i32::MIN <= rowid <= i32::MAX
}

/// The task that a row written under row id `rowid` stands for.
pub open spec fn task_written(row: NewTaskView, rowid: i64) -> TaskView
    recommends
        fits_key(rowid),
{
    TaskView { id: rowid as i32, name: row.name, details: Some(row.details), events: None }
}

/// Makes the task row for a name that is met for the first time.
pub fn task_row(name: String, details: &str) -> (row: NewTask)
    ensures
        row@ == task_row_for(name@),
{
    NewTask { name, details: String::new() }
}

/// Makes the event row for one logged occurrence.
pub fn event_row(task_id: i32, details: String, now: String, duration: String) -> (row: NewEvent)
    ensures
        row@ == event_row_for(task_id, details@, now@, duration@),
{
    NewEvent { task_id, notes: details, time_stamp: now, duration }
}

/// Reads the answer of the lookup by name.
pub fn task_found(reply: Option<Option<i32>>) -> (found: Option<i32>)
    ensures
        found == known_task(reply),
{
    match reply {
        Some(Some(id)) => Some(id),
        _ => None,
    }
}

/// Makes the task of a row that the engine has written under `rowid`. A
/// row id that no task key can hold is refused.
pub fn task_of_row(row: NewTask, rowid: i64) -> (res: Result<Task, StorageError>)
    ensures
        fits_key(rowid) ==> res is Ok && res->Ok_0@ == task_written(row@, rowid),
        !fits_key(rowid) ==> res == Err::<Task, StorageError>(StorageError::IdOutOfRange(rowid)),
{
    if -2147483648 <= rowid && rowid <= 2147483647 {
        let NewTask { name, details } = row;
        Ok(Task { id: rowid as i32, name, details: Some(details), events: None })
    } else {
        Err(StorageError::IdOutOfRange(rowid))
    }
}

} // verus!
