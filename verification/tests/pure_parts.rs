//! What the store computes between its calls to the engine, on rows written
//! by hand.

use task_store::error::from_engine;
use task_store::read::{events_of_rows, tasks_of_rows};
use task_store::rows::{EventColumns, JoinedRow, NewEvent, NewTask};
use task_store::write::{event_row, task_found, task_of_row, task_row};
use task_store::{Event, StorageError, Task};

fn text(s: &str) -> String {
    String::from(s)
}

fn columns(id: i32, task_id: i32, notes: &str) -> EventColumns {
    EventColumns {
        id: Some(id),
        task_id: Some(task_id),
        notes: Some(text(notes)),
        time_stamp: Some(text("t")),
        duration: Some(text("u")),
    }
}

fn no_event() -> EventColumns {
    EventColumns { id: None, task_id: None, notes: None, time_stamp: None, duration: None }
}

fn event(id: i32, task_id: i32, notes: &str) -> Event {
    Event { id, task_id, notes: Some(text(notes)), time_stamp: text("t"), duration: text("u") }
}

fn joined(task_id: i32, name: &str, event: EventColumns) -> JoinedRow {
    JoinedRow { task_id, task_name: text(name), task_details: Some(text("")), event }
}

#[test]
fn complete_row_becomes_its_event() {
    let row = EventColumns {
        id: Some(7),
        task_id: Some(3),
        notes: None,
        time_stamp: Some(text("2024-01-01T10:00:00")),
        duration: Some(text("PT30M")),
    };
    assert_eq!(
        row.into_event(),
        Ok(Event {
            id: 7,
            task_id: 3,
            notes: None,
            time_stamp: text("2024-01-01T10:00:00"),
            duration: text("PT30M"),
        })
    );
}

#[test]
fn row_that_lacks_a_required_column_is_refused() {
    let full = columns(1, 1, "n");
    let mut row = full.clone();
    row.id = None;
    assert_eq!(row.into_event(), Err(StorageError::MissingColumn));
    let mut row = full.clone();
    row.task_id = None;
    assert_eq!(row.into_event(), Err(StorageError::MissingColumn));
    let mut row = full.clone();
    row.time_stamp = None;
    assert_eq!(row.into_event(), Err(StorageError::MissingColumn));
    let mut row = full.clone();
    row.duration = None;
    assert_eq!(row.into_event(), Err(StorageError::MissingColumn));
    assert_eq!(no_event().into_event(), Err(StorageError::MissingColumn));
}

#[test]
fn events_come_one_for_each_row_in_order() {
    let rows = vec![columns(2, 1, "b"), columns(1, 1, "a"), columns(3, 9, "c")];
    assert_eq!(
        events_of_rows(rows),
        Ok(vec![event(2, 1, "b"), event(1, 1, "a"), event(3, 9, "c")])
    );
    assert_eq!(events_of_rows(Vec::new()), Ok(Vec::new()));
}

#[test]
fn one_incomplete_row_fails_all_events() {
    let mut bad = columns(2, 1, "b");
    bad.duration = None;
    let rows = vec![columns(1, 1, "a"), bad, columns(3, 1, "c")];
    assert_eq!(events_of_rows(rows), Err(StorageError::MissingColumn));
}

#[test]
fn rows_are_grouped_by_task_in_order_of_first_row() {
    let rows = vec![
        joined(5, "write", columns(1, 5, "w1")),
        joined(2, "walk", columns(2, 2, "k1")),
        joined(5, "write", columns(3, 5, "w2")),
        joined(8, "idle", no_event()),
        joined(2, "walk", columns(4, 2, "k2")),
        joined(5, "write", columns(5, 5, "w3")),
    ];
    let expected = vec![
        Task {
            id: 5,
            name: text("write"),
            details: Some(text("")),
            events: Some(vec![event(1, 5, "w1"), event(3, 5, "w2"), event(5, 5, "w3")]),
        },
        Task {
            id: 2,
            name: text("walk"),
            details: Some(text("")),
            events: Some(vec![event(2, 2, "k1"), event(4, 2, "k2")]),
        },
    ];
    assert_eq!(tasks_of_rows(rows), Ok(expected));
}

#[test]
fn no_rows_and_rows_without_events_give_no_tasks() {
    assert_eq!(tasks_of_rows(Vec::new()), Ok(Vec::new()));
    let rows = vec![joined(1, "idle", no_event()), joined(2, "lazy", no_event())];
    assert_eq!(tasks_of_rows(rows), Ok(Vec::new()));
}

#[test]
fn row_without_event_id_adds_nothing_whatever_else_it_holds() {
    let mut half = columns(1, 1, "n");
    half.id = None;
    let rows = vec![joined(1, "write", half)];
    assert_eq!(tasks_of_rows(rows), Ok(Vec::new()));
}

#[test]
fn task_is_named_as_its_first_row_with_an_event_names_it() {
    let rows = vec![
        JoinedRow {
            task_id: 1,
            task_name: text("ignored"),
            task_details: Some(text("ignored")),
            event: no_event(),
        },
        JoinedRow { task_id: 1, task_name: text("first"), task_details: None, event: columns(1, 1, "a") },
        JoinedRow {
            task_id: 1,
            task_name: text("second"),
            task_details: Some(text("later")),
            event: columns(2, 1, "b"),
        },
    ];
    assert_eq!(
        tasks_of_rows(rows),
        Ok(vec![Task {
            id: 1,
            name: text("first"),
            details: None,
            events: Some(vec![event(1, 1, "a"), event(2, 1, "b")]),
        }])
    );
}

#[test]
fn event_keeps_the_task_id_of_its_own_column() {
    let rows = vec![joined(1, "write", columns(1, 77, "a"))];
    let tasks = tasks_of_rows(rows).unwrap();
    assert_eq!(tasks[0].id, 1);
    assert_eq!(tasks[0].events.as_ref().unwrap()[0].task_id, 77);
}

#[test]
fn joined_row_with_part_of_an_event_fails_all_tasks() {
    let mut no_task = columns(2, 1, "b");
    no_task.task_id = None;
    let mut no_stamp = columns(2, 1, "b");
    no_stamp.time_stamp = None;
    let mut no_duration = columns(2, 1, "b");
    no_duration.duration = None;
    for bad in [no_task, no_stamp, no_duration] {
        let rows = vec![joined(1, "write", columns(1, 1, "a")), joined(1, "write", bad)];
        assert_eq!(tasks_of_rows(rows), Err(StorageError::MissingColumn));
    }
}

#[test]
fn task_row_has_empty_details_whatever_was_given() {
    assert_eq!(
        task_row(text("write"), "draft chapter 1"),
        NewTask { name: text("write"), details: text("") }
    );
    assert_eq!(task_row(text(""), ""), NewTask { name: text(""), details: text("") });
}

#[test]
fn event_row_takes_the_details_as_notes() {
    assert_eq!(
        event_row(4, text("draft chapter 1"), text("2024-01-01T10:00:00"), text("PT30M")),
        NewEvent {
            task_id: 4,
            notes: text("draft chapter 1"),
            time_stamp: text("2024-01-01T10:00:00"),
            duration: text("PT30M"),
        }
    );
}

#[test]
fn lookup_answer_is_read() {
    assert_eq!(task_found(Some(Some(3))), Some(3));
    assert_eq!(task_found(Some(Some(-1))), Some(-1));
    assert_eq!(task_found(Some(None)), None);
    assert_eq!(task_found(None), None);
}

#[test]
fn written_row_becomes_a_task_without_events() {
    let row = NewTask { name: text("write"), details: text("") };
    assert_eq!(
        task_of_row(row, 12),
        Ok(Task { id: 12, name: text("write"), details: Some(text("")), events: None })
    );
    let row = NewTask { name: text("low"), details: text("") };
    assert_eq!(
        task_of_row(row, -2147483648),
        Ok(Task { id: i32::MIN, name: text("low"), details: Some(text("")), events: None })
    );
    let row = NewTask { name: text("high"), details: text("") };
    assert_eq!(
        task_of_row(row, 2147483647),
        Ok(Task { id: i32::MAX, name: text("high"), details: Some(text("")), events: None })
    );
}

#[test]
fn row_id_outside_the_key_range_is_refused() {
    let row = NewTask { name: text("write"), details: text("") };
    assert_eq!(task_of_row(row.clone(), 2147483648), Err(StorageError::IdOutOfRange(2147483648)));
    assert_eq!(task_of_row(row.clone(), -2147483649), Err(StorageError::IdOutOfRange(-2147483649)));
    assert_eq!(task_of_row(row, i64::MAX), Err(StorageError::IdOutOfRange(i64::MAX)));
}

#[test]
fn answer_of_the_engine_is_kept_and_its_failure_carried() {
    assert_eq!(from_engine(Ok(3)), Ok(3));
    assert_eq!(
        from_engine::<i32>(Err(rusqlite::Error::QueryReturnedNoRows)),
        Err(StorageError::Engine(rusqlite::Error::QueryReturnedNoRows))
    );
    assert_eq!(
        from_engine::<()>(Err(rusqlite::Error::InvalidColumnIndex(9))),
        Err(StorageError::Engine(rusqlite::Error::InvalidColumnIndex(9)))
    );
}

#[test]
fn grouping_does_not_depend_on_where_rows_without_events_stand() {
    let with_bare = vec![
        joined(3, "idle", no_event()),
        joined(1, "write", columns(1, 1, "a")),
        joined(4, "lazy", no_event()),
        joined(1, "write", columns(2, 1, "b")),
    ];
    let without = vec![joined(1, "write", columns(1, 1, "a")), joined(1, "write", columns(2, 1, "b"))];
    assert_eq!(tasks_of_rows(with_bare), tasks_of_rows(without));
}

#[test]
fn same_rows_are_read_as_the_same() {
    let rows = vec![joined(1, "write", columns(1, 1, "a")), joined(2, "walk", columns(2, 2, "b"))];
    assert_eq!(tasks_of_rows(rows.clone()), tasks_of_rows(rows));
    let rows = vec![columns(1, 1, "a"), columns(2, 2, "b")];
    assert_eq!(events_of_rows(rows.clone()), events_of_rows(rows));
}
