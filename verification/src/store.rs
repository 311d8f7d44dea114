//! The store: one open database, and the four operations on it.
//!
//! Each operation hands statements to the engine and works on what comes
//! back. Its contract says what holds whatever came back; what the
//! operation makes of each answer is stated where that is computed, in
//! `read` and `write`.

use vstd::prelude::*;
use rusqlite::Connection;
use crate::engine;
use crate::error::{from_engine, StorageError};
use crate::grouping::lemma_grouped_is_well_grouped;
use crate::read::{events_of_rows, tasks_of_rows, well_grouped};
use crate::types::{Event, Task};
use crate::write::{event_row, task_found, task_of_row, task_row};

verus! {

/// Creates the task table unless it is there.
pub const CREATE_TASK_TABLE: &'static str = "CREATE TABLE IF NOT EXISTS task (
    id INTEGER PRIMARY KEY,
    name TEXT NOT NULL,
    details TEXT
)";

/// Creates the event table unless it is there.
pub const CREATE_EVENT_TABLE: &'static str = "CREATE TABLE IF NOT EXISTS event (
    id INTEGER PRIMARY KEY,
    task_id INTEGER,
    notes TEXT,
    time_stamp TEXT,
    duration TEXT,
    FOREIGN KEY(task_id) REFERENCES task(id)
)";

/// Finds the key of the task with a given name.
pub const SELECT_TASK_ID: &'static str = "SELECT id FROM task WHERE name = ?1";

/// Writes a task row.
pub const INSERT_TASK: &'static str = "INSERT INTO task (name, details) VALUES (?1, ?2)";

/// Writes an event row.
pub const INSERT_EVENT: &'static str =
    "INSERT INTO event (task_id, notes, time_stamp, duration) VALUES (?1, ?2, ?3, ?4)";

/// Reads every event row.
pub const SELECT_EVENTS: &'static str = "SELECT id, task_id, notes, time_stamp, duration FROM event";

/// Reads every task row, each beside every one of its event rows.
pub const SELECT_TASKS_WITH_EVENTS: &'static str = "SELECT
    task.id, task.name, task.details,
    event.id, event.task_id, event.notes, event.time_stamp, event.duration
FROM task LEFT JOIN event ON task.id = event.task_id";

/// An open database of tasks and events.
#[derive(Debug)]
pub struct Store {
    connection: Connection,
}

/// Runs one of the two statements that create a table.
fn create_table(conn: &Connection, sql: &str) -> (res: Result<(), StorageError>)
    ensures
        res matches Err(e) ==> e is Engine,
{
    let mut stmt = from_engine(conn.prepare(sql))?;
    from_engine(engine::execute(&mut stmt))?;
    Ok(())
}

/// Looks a task up by its name. `None` where no task has the name.
fn get_task_id_by_name(conn: &Connection, task_name: &str) -> (res: Result<
    Option<i32>,
    StorageError,
>)
    ensures
        res matches Err(e) ==> e is Engine,
{
    let mut stmt = from_engine(conn.prepare(SELECT_TASK_ID))?;
    let reply = from_engine(engine::query_key(&mut stmt, task_name))?;
    Ok(task_found(reply))
}

/// Writes the row of a new task and hands the task back, with the key that
/// the engine gave it. The row's details are empty whatever `details` is.
fn create_task(conn: &Connection, task_name: String, details: &str) -> (res: Result<
    Task,
    StorageError,
>)
    ensures
        res matches Ok(task) ==> {
            &&& task@.name == task_name@
            &&& task@.details == Some(Seq::<char>::empty())
            &&& task@.events is None
        },
        res matches Err(e) ==> e is Engine || e is IdOutOfRange,
{
    let row = task_row(task_name, details);
    let mut stmt = from_engine(conn.prepare(INSERT_TASK))?;
    from_engine(engine::execute_with_task(&mut stmt, &row))?;
    task_of_row(row, conn.last_insert_rowid())
}

/// Writes the row of one event under the task with key `task_id`.
fn create_event(
    conn: &Connection,
    task_id: i32,
    notes: String,
    now: String,
    duration: String,
) -> (res: Result<(), StorageError>)
    ensures
        res matches Err(e) ==> e is Engine,
{
    let row = event_row(task_id, notes, now, duration);
    let mut stmt = from_engine(conn.prepare(INSERT_EVENT))?;
    from_engine(engine::execute_with_event(&mut stmt, &row))?;
    Ok(())
}

impl Store {
    /// Opens the database at `db_url`, creating it where there is none, and
    /// makes sure that both tables are there. Tables that are there are
    /// left as they are. Whether the engine holds an event to name a task
    /// that exists is left to the engine's own setting.
    pub fn new(db_url: &str) -> (res: Result<Store, StorageError>)
        ensures
            res matches Err(e) ==> e is Engine,
    {
        let connection = from_engine(engine::open(db_url))?;
        create_table(&connection, CREATE_TASK_TABLE)?;
        create_table(&connection, CREATE_EVENT_TABLE)?;
        Ok(Store { connection })
    }

    /// Records one occurrence of work under the task named `name`: an event
    /// with `details` as its notes, and `now` and `duration` as they came.
    /// Where no task has the name, the task is created first, with empty
    /// details.
    ///
    /// The lookup and the one or two inserts are separate statements, not
    /// one transaction: a failure after the task's insert leaves the task
    /// without the event, and two callers that log under one new name at
    /// the same time may each create the task.
    pub fn add_task(&self, name: String, details: String, now: String, duration: String) -> (res:
        Result<(), StorageError>)
        ensures
            res matches Err(e) ==> e is Engine || e is IdOutOfRange,
    {
        let task_id = match get_task_id_by_name(&self.connection, name.as_str())? {
            Some(task_id) => task_id,
            None => create_task(&self.connection, name, details.as_str())?.id,
        };
        create_event(&self.connection, task_id, details, now, duration)
    }

    /// Every task that has at least one event, each once, with all its
    /// events. A task without events is left out. One event row that lacks
    /// its task id, its time stamp or its duration fails the read.
    pub fn get_tasks(&self) -> (res: Result<Vec<Task>, StorageError>)
        ensures
            res matches Ok(tasks) ==> well_grouped(tasks.deep_view()),
            res matches Err(e) ==> e is Engine || e is MissingColumn,
    {
        let mut stmt = from_engine(self.connection.prepare(SELECT_TASKS_WITH_EVENTS))?;
        let rows = from_engine(engine::query_joined(&mut stmt))?;
        proof {
            lemma_grouped_is_well_grouped(rows.deep_view());
        }
        tasks_of_rows(rows)
    }

    /// Every event, in the order in which the engine hands the rows over.
    /// One event row that lacks its task id, its time stamp or its duration
    /// fails the read.
    pub fn get_events(&self) -> (res: Result<Vec<Event>, StorageError>)
        ensures
            res matches Err(e) ==> e is Engine || e is MissingColumn,
    {
        let mut stmt = from_engine(self.connection.prepare(SELECT_EVENTS))?;
        let rows = from_engine(engine::query_events(&mut stmt))?;
        events_of_rows(rows)
    }
}

} // verus!
