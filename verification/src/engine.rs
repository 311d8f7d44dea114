//! The calls into the database engine. Nothing in this file is proved: each
//! item says what the store relies on, and of what the engine answers the
//! store relies on nothing.

use vstd::prelude::*;
use rusqlite::Connection;
use rusqlite::OptionalExtension;
use rusqlite::Statement;
use crate::rows::{EventColumns, JoinedRow, NewEvent, NewTask};

verus! {

/// `rusqlite::Connection`, an open database. The store holds one and hands
/// it to the calls below; what the database holds is not known here.
#[verifier::external_type_specification]
#[verifier::external_body]
pub struct ExConnection(rusqlite::Connection);

/// `rusqlite::Statement`, a statement that the engine has prepared on a
/// connection.
#[verifier::external_type_specification]
#[verifier::external_body]
pub struct ExStatement<'conn>(rusqlite::Statement<'conn>);

/// `rusqlite::Error`, the engine's own error. Its inside is not looked at:
/// the store carries it to the caller as it came.
#[verifier::external_type_specification]
#[verifier::external_body]
pub struct ExEngineError(rusqlite::Error);

/// `rusqlite::Connection::open`: opens the database at `path`, and creates
/// it where there is none.
#[verifier::external_body]
pub(crate) fn open(path: &str) -> (res: Result<Connection, rusqlite::Error>) {
    Connection::open(path)
}

/// `rusqlite::Connection::prepare`: has the engine prepare one statement.
pub assume_specification<'conn>[ Connection::prepare ](conn: &'conn Connection, sql: &str) -> (res:
    Result<Statement<'conn>, rusqlite::Error>)
;

/// `rusqlite::Connection::last_insert_rowid`: the row id of the latest row
/// that was inserted through this connection.
pub assume_specification[ Connection::last_insert_rowid ](conn: &Connection) -> (rowid: i64)
;

/// `rusqlite::Statement::execute` without parameters: runs a statement that
/// returns no rows.
#[verifier::external_body]
pub(crate) fn execute(statement: &mut Statement<'_>) -> (res: Result<usize, rusqlite::Error>) {
    statement.execute(())
}

/// `rusqlite::Statement::execute` with the two columns of a task row as the
/// statement's parameters, name first.
#[verifier::external_body]
pub(crate) fn execute_with_task(statement: &mut Statement<'_>, row: &NewTask) -> (res: Result<
    usize,
    rusqlite::Error,
>) {
    statement.execute((&row.name, &row.details))
}

/// `rusqlite::Statement::execute` with the four columns of an event row as
/// the statement's parameters: task id, notes, time stamp, duration.
#[verifier::external_body]
pub(crate) fn execute_with_event(statement: &mut Statement<'_>, row: &NewEvent) -> (res: Result<
    usize,
    rusqlite::Error,
>) {
    statement.execute((row.task_id, &row.notes, &row.time_stamp, &row.duration))
}

/// `rusqlite::Statement::query_row` with `name` as the statement's one
/// parameter, and `rusqlite::OptionalExtension::optional` on its result:
/// the first column of the first row, read with `rusqlite::Row::get` as a
/// key that may be null. `None` where the query returned no row.
#[verifier::external_body]
pub(crate) fn query_key(statement: &mut Statement<'_>, name: &str) -> (res: Result<
    Option<Option<i32>>,
    rusqlite::Error,
>) {
    statement.query_row((name,), |row| row.get(0)).optional()
}

/// `rusqlite::Statement::query_map` without parameters: all rows of a query
/// with five columns, each row read with `rusqlite::Row::get` as the
/// columns of an event, in the order id, task id, notes, time stamp,
/// duration. The first row that cannot be read so fails the call.
#[verifier::external_body]
pub(crate) fn query_events(statement: &mut Statement<'_>) -> (res: Result<
    Vec<EventColumns>,
    rusqlite::Error,
>) {
    let rows = statement.query_map((), |row| {
        Ok(EventColumns {
            id: row.get(0)?,
            task_id: row.get(1)?,
            notes: row.get(2)?,
            time_stamp: row.get(3)?,
            duration: row.get(4)?,
        })
    })?;
    rows.collect()
}

/// `rusqlite::Statement::query_map` without parameters: all rows of a query
/// with eight columns, each row read with `rusqlite::Row::get`: a task's
/// id, name and details, then the five columns of an event as in
/// `query_events`. The first row that cannot be read so fails the call.
#[verifier::external_body]
pub(crate) fn query_joined(statement: &mut Statement<'_>) -> (res: Result<
    Vec<JoinedRow>,
    rusqlite::Error,
>) {
    let rows = statement.query_map((), |row| {
        let event = EventColumns {
            id: row.get(3)?,
            task_id: row.get(4)?,
            notes: row.get(5)?,
            time_stamp: row.get(6)?,
            duration: row.get(7)?,
        };
        Ok(JoinedRow { task_id: row.get(0)?, task_name: row.get(1)?, task_details: row.get(2)?, event })
    })?;
    rows.collect()
}

} // verus!
