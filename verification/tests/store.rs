use clockit::models::{SQLTask, State};
use clockit::{
    change_task_label, change_task_state, clean_tasks, clean_tasks_at, create_task,
    create_task_at, delete_outcome, delete_task, get_task, get_task_with_state, get_tasks,
    set_task_state, task_exists, TaskError, TaskTable,
};

fn stored(label: &str, state: &str, created_on: i32, end_dt: i32) -> SQLTask {
    SQLTask {
        label: String::from(label),
        time: 0,
        created_on,
        begin_dt: created_on,
        end_dt,
        state: String::from(state),
    }
}

fn labels_of(table: &TaskTable) -> Vec<String> {
    table.rows().iter().map(|row| row.label.clone()).collect()
}

#[test]
fn new_table_is_empty() {
    let table = TaskTable::new();
    assert_eq!(table.len(), 0);
    assert!(table.rows().is_empty());
    assert!(!task_exists(&table, "x"));
    assert_eq!(get_task(&table, "x"), None);
    assert_eq!(get_tasks(&table), None);
    assert_eq!(get_task_with_state(&table, "created"), None);
}

#[test]
fn created_task_exists_until_deleted() {
    let mut table = TaskTable::new();
    assert_eq!(create_task(&mut table, "x"), Ok(1));
    assert!(task_exists(&table, "x"));
    assert_eq!(delete_task(&mut table, "x"), Ok(()));
    assert!(!task_exists(&table, "x"));
    assert_eq!(delete_task(&mut table, "x"), Err(TaskError::NotFound(String::from("x"))));
    assert_eq!(table.len(), 0);
}

#[test]
fn created_task_is_stored_as_created() {
    let mut table = TaskTable::new();
    assert_eq!(create_task_at(&mut table, "x", 1_700_000_000), Ok(1));
    assert_eq!(table.rows()[0], stored("x", "created", 1_700_000_000, 1_700_000_000));
    let task = get_task(&table, "x").unwrap();
    assert_eq!(task.label, "x");
    assert_eq!(task.state, State::Created);
    assert_eq!(task.time, 0);
    assert_eq!(task.created_on, 1_700_000_000);
    assert_eq!(task.begin_dt, 1_700_000_000);
    assert_eq!(task.end_dt, 1_700_000_000);
}

#[test]
fn created_task_is_stored_in_32_bits() {
    let mut table = TaskTable::new();
    assert_eq!(create_task_at(&mut table, "late", 4_102_444_800), Ok(1));
    assert_eq!(table.rows()[0].created_on, -192_522_496);
}

#[test]
fn label_is_created_once() {
    let mut table = TaskTable::new();
    assert_eq!(create_task_at(&mut table, "x", 10), Ok(1));
    assert_eq!(create_task_at(&mut table, "x", 20), Err(TaskError::StorageError));
    assert_eq!(create_task(&mut table, "x"), Err(TaskError::StorageError));
    assert_eq!(table.len(), 1);
    assert_eq!(table.rows()[0].created_on, 10);
    assert_eq!(create_task_at(&mut table, "X", 30), Ok(1));
    assert_eq!(labels_of(&table), vec![String::from("x"), String::from("X")]);
}

#[test]
fn task_is_found_by_its_label_only() {
    let mut table = TaskTable::new();
    assert_eq!(create_task_at(&mut table, "a", 10), Ok(1));
    assert_eq!(create_task_at(&mut table, "b", 20), Ok(1));
    assert_eq!(get_task(&table, "b").unwrap().created_on, 20);
    assert_eq!(get_task(&table, "a").unwrap().created_on, 10);
    assert_eq!(get_task(&table, "c"), None);
    assert_eq!(get_task(&table, ""), None);
    assert!(!task_exists(&table, "A"));
}

#[test]
fn delete_takes_one_row_and_keeps_the_order() {
    let mut table = TaskTable::new();
    for (label, now) in [("a", 1i64), ("b", 2), ("c", 3)] {
        assert_eq!(create_task_at(&mut table, label, now), Ok(1));
    }
    assert_eq!(delete_task(&mut table, "b"), Ok(()));
    assert_eq!(labels_of(&table), vec![String::from("a"), String::from("c")]);
    assert_eq!(delete_task(&mut table, "z"), Err(TaskError::NotFound(String::from("z"))));
    assert_eq!(table.len(), 2);
}

#[test]
fn outcome_of_a_deletion() {
    assert_eq!(delete_outcome("x", 0), Err(TaskError::NotFound(String::from("x"))));
    assert_eq!(delete_outcome("x", 1), Ok(()));
    assert_eq!(delete_outcome("x", 2), Err(TaskError::StorageError));
    assert_eq!(delete_outcome("x", usize::MAX), Err(TaskError::StorageError));
}

#[test]
fn one_started_task_of_three_is_listed() {
    let mut table = TaskTable::new();
    for label in ["a", "b", "c"] {
        assert_eq!(create_task(&mut table, label), Ok(1));
    }
    assert_eq!(change_task_state(&mut table, "b", "start"), Ok(()));
    let running = get_task_with_state(&table, "started").unwrap();
    assert_eq!(running.len(), 1);
    assert_eq!(running[0].label, "b");
    assert_eq!(running[0].state, State::Started);
    let waiting = get_task_with_state(&table, "created").unwrap();
    assert_eq!(waiting.len(), 2);
    assert_eq!(waiting[0].label, "a");
    assert_eq!(waiting[1].label, "c");
    assert_eq!(get_task_with_state(&table, "ended"), None);
    assert_eq!(get_task_with_state(&table, "start"), None);
    assert_eq!(get_task_with_state(&table, "Started"), None);
}

#[test]
fn state_is_changed_by_an_order() {
    let mut table = TaskTable::new();
    assert_eq!(create_task_at(&mut table, "a", 10), Ok(1));
    assert_eq!(create_task_at(&mut table, "b", 20), Ok(1));
    assert_eq!(change_task_state(&mut table, "a", "P"), Ok(()));
    assert_eq!(table.rows()[0], stored("a", "paused", 10, 10));
    assert_eq!(table.rows()[1], stored("b", "created", 20, 20));
    assert_eq!(change_task_state(&mut table, "a", "End"), Ok(()));
    assert_eq!(get_task(&table, "a").unwrap().state, State::Ended);
}

#[test]
fn state_change_refuses_what_is_no_order() {
    let mut table = TaskTable::new();
    assert_eq!(create_task_at(&mut table, "a", 10), Ok(1));
    assert_eq!(
        change_task_state(&mut table, "a", "started"),
        Err(TaskError::InvalidStateCode(String::from("started")))
    );
    assert_eq!(
        change_task_state(&mut table, "missing", "bogus"),
        Err(TaskError::InvalidStateCode(String::from("bogus")))
    );
    assert_eq!(table.rows()[0].state, "created");
}

#[test]
fn state_change_needs_the_label() {
    let mut table = TaskTable::new();
    assert_eq!(create_task_at(&mut table, "a", 10), Ok(1));
    assert_eq!(
        change_task_state(&mut table, "b", "start"),
        Err(TaskError::NotFound(String::from("b")))
    );
    assert_eq!(
        set_task_state(&mut table, "b", State::Ended),
        Err(TaskError::NotFound(String::from("b")))
    );
    assert_eq!(set_task_state(&mut table, "a", State::Ended), Ok(()));
    assert_eq!(table.rows()[0], stored("a", "ended", 10, 10));
}

#[test]
fn label_is_changed() {
    let mut table = TaskTable::new();
    assert_eq!(create_task_at(&mut table, "a", 10), Ok(1));
    assert_eq!(create_task_at(&mut table, "b", 20), Ok(1));
    assert_eq!(change_task_label(&mut table, "a", "c"), Ok(()));
    assert_eq!(table.rows()[0], stored("c", "created", 10, 10));
    assert!(task_exists(&table, "c"));
    assert!(!task_exists(&table, "a"));
    assert_eq!(change_task_label(&mut table, "c", "c"), Ok(()));
    assert_eq!(labels_of(&table), vec![String::from("c"), String::from("b")]);
}

#[test]
fn label_change_is_refused() {
    let mut table = TaskTable::new();
    assert_eq!(create_task_at(&mut table, "a", 10), Ok(1));
    assert_eq!(create_task_at(&mut table, "b", 20), Ok(1));
    assert_eq!(
        change_task_label(&mut table, "z", "y"),
        Err(TaskError::NotFound(String::from("z")))
    );
    assert_eq!(
        change_task_label(&mut table, "z", "a"),
        Err(TaskError::NotFound(String::from("z")))
    );
    assert_eq!(change_task_label(&mut table, "a", "b"), Err(TaskError::StorageError));
    assert_eq!(labels_of(&table), vec![String::from("a"), String::from("b")]);
}

#[test]
fn all_tasks_are_listed_newest_first() {
    let rows = vec![
        stored("second", "created", 200, 200),
        stored("fourth", "paused", 400, 400),
        stored("first", "ended", 100, 100),
        stored("third", "started", 300, 300),
    ];
    let table = TaskTable::from_rows(rows).unwrap();
    let tasks = get_tasks(&table).unwrap();
    let order: Vec<&str> = tasks.iter().map(|task| task.label.as_str()).collect();
    assert_eq!(order, vec!["fourth", "third", "second", "first"]);
    assert_eq!(tasks[0].state, State::Paused);
    assert_eq!(tasks[3].created_on, 100);
    assert_eq!(table.len(), 4);
}

#[test]
fn tasks_of_one_second_are_all_listed() {
    let rows = vec![
        stored("a", "created", 100, 100),
        stored("b", "created", 300, 300),
        stored("c", "created", 100, 100),
    ];
    let table = TaskTable::from_rows(rows).unwrap();
    let tasks = get_tasks(&table).unwrap();
    assert_eq!(tasks.len(), 3);
    assert_eq!(tasks[0].label, "b");
    let mut rest: Vec<&str> = vec![tasks[1].label.as_str(), tasks[2].label.as_str()];
    rest.sort();
    assert_eq!(rest, vec!["a", "c"]);
}

#[test]
fn cleaning_takes_the_ended_task_and_leaves_the_started_one() {
    let rows =
        vec![stored("done", "ended", 1_000, 2_000), stored("running", "started", 1_500, 1_500)];
    let mut table = TaskTable::from_rows(rows).unwrap();
    assert_eq!(clean_tasks(&mut table), 1);
    assert_eq!(table.len(), 1);
    assert_eq!(table.rows()[0], stored("running", "started", 1_500, 1_500));
    assert_eq!(clean_tasks(&mut table), 0);
    assert_eq!(table.len(), 1);
}

#[test]
fn cleaning_goes_by_the_end_of_the_task() {
    let rows = vec![
        stored("old", "ended", 10, 99),
        stored("edge", "ended", 10, 100),
        stored("paused", "paused", 10, 50),
        stored("new", "ended", 10, 101),
        stored("older", "ended", 10, -5),
    ];
    let mut table = TaskTable::from_rows(rows).unwrap();
    assert_eq!(clean_tasks_at(&mut table, 100), 2);
    assert_eq!(
        labels_of(&table),
        vec![String::from("edge"), String::from("paused"), String::from("new")]
    );
    assert_eq!(clean_tasks_at(&mut table, 4_102_444_800), 2);
    assert_eq!(labels_of(&table), vec![String::from("paused")]);
}

#[test]
fn table_of_rows_keeps_them() {
    let rows = vec![stored("a", "created", 1, 1), stored("b", "ended", 2, 3)];
    let table = TaskTable::from_rows(rows.clone()).unwrap();
    assert_eq!(table.rows(), &rows);
    assert_eq!(table.len(), 2);
    assert_eq!(TaskTable::from_rows(Vec::new()).unwrap().len(), 0);
}

#[test]
fn table_refuses_an_unknown_state() {
    let rows = vec![
        stored("a", "created", 1, 1),
        stored("b", "Ended", 2, 3),
        stored("c", "gone", 2, 3),
        stored("a", "created", 1, 1),
    ];
    assert_eq!(
        TaskTable::from_rows(rows).err(),
        Some(TaskError::InvalidStateCode(String::from("Ended")))
    );
}

#[test]
fn table_refuses_a_label_twice() {
    let rows = vec![
        stored("a", "created", 1, 1),
        stored("b", "ended", 2, 3),
        stored("a", "paused", 5, 5),
    ];
    assert_eq!(TaskTable::from_rows(rows).err(), Some(TaskError::StorageError));
}
