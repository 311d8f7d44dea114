//! The one error type of the store.

use vstd::prelude::*;

verus! {

/// Why an operation of the store failed.
#[derive(Debug, PartialEq)]
pub enum StorageError {
    /// The engine refused to open the database, to prepare or run a
    /// statement, or to decode a column as the type asked for.
    Engine(rusqlite::Error),
    /// An event row held no value in a column that every event must have.
    MissingColumn,
    /// The engine gave a new task a row id that no task id can hold.
    IdOutOfRange(i64),
}

/// Turns what the engine answered into the store's own result: a value is
/// kept, a failure is carried inside `StorageError::Engine`.
pub fn from_engine<T>(reply: Result<T, rusqlite::Error>) -> (res: Result<T, StorageError>)
    ensures
        match reply {
            Ok(v) => res == Ok::<T, StorageError>(v),
            Err(e) => res == Err::<T, StorageError>(StorageError::Engine(e)),
        },
{
    match reply {
        Ok(v) => Ok(v),
        Err(e) => Err(StorageError::Engine(e)),
    }
}

} // verus!
