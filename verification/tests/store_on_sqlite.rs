//! The store on a real database in memory.

use task_store::{Event, StorageError, Store, Task};

fn text(s: &str) -> String {
    String::from(s)
}

fn log(store: &Store, name: &str, details: &str, now: &str, duration: &str) {
    store.add_task(text(name), text(details), text(now), text(duration)).unwrap();
}

#[test]
fn first_entry_creates_one_task_and_one_event() {
    let store = Store::new(":memory:").unwrap();
    log(&store, "write", "draft chapter 1", "2024-01-01T10:00:00", "PT30M");

    let events = store.get_events().unwrap();
    assert_eq!(
        events,
        vec![Event {
            id: 1,
            task_id: 1,
            notes: Some(text("draft chapter 1")),
            time_stamp: text("2024-01-01T10:00:00"),
            duration: text("PT30M"),
        }]
    );
    let tasks = store.get_tasks().unwrap();
    assert_eq!(
        tasks,
        vec![Task { id: 1, name: text("write"), details: Some(text("")), events: Some(events) }]
    );
}

#[test]
fn second_entry_under_the_same_name_reuses_the_task() {
    let store = Store::new(":memory:").unwrap();
    log(&store, "write", "draft chapter 1", "2024-01-01T10:00:00", "PT30M");
    log(&store, "write", "draft chapter 2", "2024-01-02T10:00:00", "PT45M");

    let tasks = store.get_tasks().unwrap();
    assert_eq!(tasks.len(), 1);
    assert_eq!(tasks[0].name, "write");
    let events = store.get_events().unwrap();
    assert_eq!(events.len(), 2);
    assert_eq!(events[0].task_id, tasks[0].id);
    assert_eq!(events[1].task_id, tasks[0].id);
    assert_eq!(events[1].notes, Some(text("draft chapter 2")));
    assert_eq!(events[1].time_stamp, "2024-01-02T10:00:00");
    assert_eq!(events[1].duration, "PT45M");
    let under = tasks[0].events.as_ref().unwrap();
    assert_eq!(under.len(), 2);
    for event in &events {
        assert!(under.contains(event));
    }
}

#[test]
fn two_entries_make_one_task_and_two_events_whatever_the_name() {
    for name in ["a", "", "two words", "write", "Write"] {
        let store = Store::new(":memory:").unwrap();
        log(&store, "other", "x", "t0", "u0");
        log(&store, name, "d1", "t1", "u1");
        log(&store, name, "d2", "t2", "u2");
        let tasks = store.get_tasks().unwrap();
        let named: Vec<&Task> = tasks.iter().filter(|t| t.name == name).collect();
        assert_eq!(named.len(), 1);
        let events = store.get_events().unwrap();
        let under = events.iter().filter(|e| e.task_id == named[0].id).count();
        assert_eq!(under, 2);
    }
}

#[test]
fn names_are_compared_exactly() {
    let store = Store::new(":memory:").unwrap();
    log(&store, "write", "a", "t1", "u1");
    log(&store, "Write", "b", "t2", "u2");
    log(&store, "write ", "c", "t3", "u3");
    let tasks = store.get_tasks().unwrap();
    assert_eq!(tasks.len(), 3);
}

#[test]
fn logged_event_is_read_back_as_written() {
    let store = Store::new(":memory:").unwrap();
    log(&store, "read", "", "12", "0042");
    log(&store, "garden", "weeds; and 'quotes'", "yesterday", "PT1H");
    let tasks = store.get_tasks().unwrap();
    let garden = tasks.iter().find(|t| t.name == "garden").unwrap();
    let events = store.get_events().unwrap();
    assert!(events.iter().any(|e| e.notes == Some(text("weeds; and 'quotes'"))
        && e.time_stamp == "yesterday"
        && e.duration == "PT1H"
        && e.task_id == garden.id));
    let read = tasks.iter().find(|t| t.name == "read").unwrap();
    assert!(events.iter().any(|e| e.notes == Some(text(""))
        && e.time_stamp == "12"
        && e.duration == "0042"
        && e.task_id == read.id));
}

#[test]
fn stored_details_are_empty_whatever_was_given() {
    let store = Store::new(":memory:").unwrap();
    log(&store, "write", "not empty at all", "t", "u");
    log(&store, "rest", "", "t", "u");
    let tasks = store.get_tasks().unwrap();
    assert_eq!(tasks.len(), 2);
    for task in tasks {
        assert_eq!(task.details, Some(text("")));
    }
}

#[test]
fn reading_twice_gives_the_same() {
    let store = Store::new(":memory:").unwrap();
    log(&store, "write", "one", "t1", "u1");
    log(&store, "walk", "two", "t2", "u2");
    log(&store, "write", "three", "t3", "u3");
    assert_eq!(store.get_tasks().unwrap(), store.get_tasks().unwrap());
    assert_eq!(store.get_events().unwrap(), store.get_events().unwrap());
}

#[test]
fn empty_store_reads_as_empty() {
    let store = Store::new(":memory:").unwrap();
    assert_eq!(store.get_tasks().unwrap(), Vec::<Task>::new());
    assert_eq!(store.get_events().unwrap(), Vec::<Event>::new());
}

#[test]
fn each_task_comes_once_with_all_its_events() {
    let store = Store::new(":memory:").unwrap();
    log(&store, "write", "w1", "t1", "u1");
    log(&store, "walk", "k1", "t2", "u2");
    log(&store, "write", "w2", "t3", "u3");
    let tasks = store.get_tasks().unwrap();
    assert_eq!(tasks.len(), 2);
    let write = tasks.iter().find(|t| t.name == "write").unwrap();
    let walk = tasks.iter().find(|t| t.name == "walk").unwrap();
    let mut notes: Vec<Option<String>> =
        write.events.as_ref().unwrap().iter().map(|e| e.notes.clone()).collect();
    notes.sort();
    assert_eq!(notes, vec![Some(text("w1")), Some(text("w2"))]);
    assert_eq!(walk.events.as_ref().unwrap().len(), 1);
    assert_eq!(walk.events.as_ref().unwrap()[0].notes, Some(text("k1")));
    for task in &tasks {
        for event in task.events.as_ref().unwrap() {
            assert_eq!(event.task_id, task.id);
        }
    }
}

#[test]
fn opening_twice_keeps_what_is_there() {
    let url = "file:task_store_reopen?mode=memory&cache=shared";
    let first = Store::new(url).unwrap();
    log(&first, "write", "one", "t1", "u1");
    let second = Store::new(url).unwrap();
    assert_eq!(second.get_events().unwrap().len(), 1);
    log(&second, "write", "two", "t2", "u2");
    assert_eq!(first.get_tasks().unwrap().len(), 1);
    assert_eq!(first.get_events().unwrap().len(), 2);
}

#[test]
fn task_without_events_is_left_out() {
    let url = "file:task_store_bare_task?mode=memory&cache=shared";
    let store = Store::new(url).unwrap();
    let side = rusqlite::Connection::open(url).unwrap();
    side.execute("INSERT INTO task (name, details) VALUES ('idle', 'nothing yet')", ()).unwrap();
    assert_eq!(store.get_tasks().unwrap(), Vec::<Task>::new());
    log(&store, "busy", "x", "t", "u");
    let tasks = store.get_tasks().unwrap();
    assert_eq!(tasks.len(), 1);
    assert_eq!(tasks[0].name, "busy");
    assert_eq!(tasks[0].events.as_ref().unwrap().len(), 1);
}

#[test]
fn event_without_notes_is_read_with_none() {
    let url = "file:task_store_no_notes?mode=memory&cache=shared";
    let store = Store::new(url).unwrap();
    log(&store, "write", "x", "t", "u");
    let side = rusqlite::Connection::open(url).unwrap();
    side.execute(
        "INSERT INTO event (task_id, notes, time_stamp, duration) VALUES (1, NULL, 't2', 'u2')",
        (),
    )
    .unwrap();
    let events = store.get_events().unwrap();
    assert_eq!(events.len(), 2);
    assert_eq!(events[1].notes, None);
    let tasks = store.get_tasks().unwrap();
    let under = tasks[0].events.as_ref().unwrap();
    assert_eq!(under.len(), 2);
    assert!(under.iter().any(|e| e.notes == None && e.time_stamp == "t2"));
}

#[test]
fn event_without_time_stamp_fails_both_reads() {
    let url = "file:task_store_no_stamp?mode=memory&cache=shared";
    let store = Store::new(url).unwrap();
    log(&store, "write", "x", "t", "u");
    let side = rusqlite::Connection::open(url).unwrap();
    side.execute(
        "INSERT INTO event (task_id, notes, time_stamp, duration) VALUES (1, 'n', NULL, 'u2')",
        (),
    )
    .unwrap();
    assert_eq!(store.get_events(), Err(StorageError::MissingColumn));
    assert_eq!(store.get_tasks(), Err(StorageError::MissingColumn));
}

#[test]
fn event_without_duration_fails_both_reads() {
    let url = "file:task_store_no_duration?mode=memory&cache=shared";
    let store = Store::new(url).unwrap();
    log(&store, "write", "x", "t", "u");
    let side = rusqlite::Connection::open(url).unwrap();
    side.execute(
        "INSERT INTO event (task_id, notes, time_stamp, duration) VALUES (1, 'n', 't2', NULL)",
        (),
    )
    .unwrap();
    assert_eq!(store.get_events(), Err(StorageError::MissingColumn));
    assert_eq!(store.get_tasks(), Err(StorageError::MissingColumn));
}

#[test]
fn column_of_the_wrong_type_is_an_engine_error() {
    let url = "file:task_store_wrong_type?mode=memory&cache=shared";
    let store = Store::new(url).unwrap();
    let side = rusqlite::Connection::open(url).unwrap();
    side.execute(
        "INSERT INTO event (task_id, notes, time_stamp, duration) VALUES ('abc', 'n', 't', 'u')",
        (),
    )
    .unwrap();
    assert!(matches!(store.get_events(), Err(StorageError::Engine(_))));
}

#[test]
fn database_that_cannot_be_opened_is_an_engine_error() {
    let res = Store::new("/no/such/directory/anywhere/tasks.db");
    assert!(matches!(res, Err(StorageError::Engine(_))));
}

#[test]
fn new_task_id_beyond_the_key_range_is_refused() {
    let url = "file:task_store_big_id?mode=memory&cache=shared";
    let store = Store::new(url).unwrap();
    let side = rusqlite::Connection::open(url).unwrap();
    side.execute("INSERT INTO task (id, name, details) VALUES (2147483647, 'last', '')", ())
        .unwrap();
    let res = store.add_task(text("next"), text("d"), text("t"), text("u"));
    assert_eq!(res, Err(StorageError::IdOutOfRange(2147483648)));
    assert_eq!(store.get_events().unwrap(), Vec::<Event>::new());
}
