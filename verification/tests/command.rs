use clockit::models::{SQLTask, State};
use clockit::{order, order_at, Outcome, TaskTable};

fn stored(label: &str, state: &str) -> SQLTask {
    SQLTask {
        label: String::from(label),
        time: 7,
        created_on: 100,
        begin_dt: 200,
        end_dt: 300,
        state: String::from(state),
    }
}

fn table_of(states: [&str; 4]) -> TaskTable {
    TaskTable::from_rows(vec![
        stored("a", states[0]),
        stored("b", states[1]),
        stored("c", states[2]),
        stored("d", states[3]),
    ])
    .unwrap()
}

#[test]
fn order_to_start_creates_a_missing_task() {
    let mut table = TaskTable::new();
    assert_eq!(order_at(&mut table, "x", State::Started, 1_700_000_000), Outcome::CreatedAndDone);
    assert_eq!(table.len(), 1);
    let row = &table.rows()[0];
    assert_eq!(row.label, "x");
    assert_eq!(row.state, "started");
    assert_eq!(row.time, 0);
    assert_eq!(row.created_on, 1_700_000_000);
    assert_eq!(row.begin_dt, 1_700_000_000);
    assert_eq!(row.end_dt, 1_700_000_000);
}

#[test]
fn other_orders_find_the_task_missing() {
    let mut table = TaskTable::new();
    assert_eq!(order_at(&mut table, "x", State::Paused, 5), Outcome::Missing);
    assert_eq!(order_at(&mut table, "x", State::Ended, 5), Outcome::Missing);
    assert_eq!(order_at(&mut table, "x", State::Created, 5), Outcome::Missing);
    assert_eq!(order(&mut table, "x", State::Ended), Outcome::Missing);
    assert_eq!(table.len(), 0);
}

#[test]
fn orders_are_followed_where_the_state_leads_on() {
    let mut table = table_of(["created", "started", "paused", "ended"]);
    assert_eq!(order_at(&mut table, "a", State::Started, 9), Outcome::Done);
    assert_eq!(order_at(&mut table, "b", State::Paused, 9), Outcome::Done);
    assert_eq!(order_at(&mut table, "c", State::Ended, 9), Outcome::Done);
    assert_eq!(table.rows()[0], stored("a", "started"));
    assert_eq!(table.rows()[1], stored("b", "paused"));
    assert_eq!(table.rows()[2], stored("c", "ended"));
    assert_eq!(table.rows()[3], stored("d", "ended"));
    assert_eq!(order(&mut table, "b", State::Started), Outcome::Done);
    assert_eq!(order(&mut table, "a", State::Ended), Outcome::Done);
    assert_eq!(table.rows()[0], stored("a", "ended"));
    assert_eq!(table.rows()[1], stored("b", "started"));
}

#[test]
fn orders_are_refused_where_the_state_does_not_lead_on() {
    let mut table = table_of(["created", "started", "paused", "ended"]);
    assert_eq!(order_at(&mut table, "a", State::Paused, 9), Outcome::Refused(State::Created));
    assert_eq!(order_at(&mut table, "a", State::Ended, 9), Outcome::Refused(State::Created));
    assert_eq!(order_at(&mut table, "b", State::Started, 9), Outcome::Refused(State::Started));
    assert_eq!(order_at(&mut table, "c", State::Paused, 9), Outcome::Refused(State::Paused));
    for target in [State::Created, State::Started, State::Paused, State::Ended] {
        assert_eq!(order_at(&mut table, "d", target, 9), Outcome::Refused(State::Ended));
        assert_eq!(order(&mut table, "d", target), Outcome::Refused(State::Ended));
    }
    assert_eq!(table.rows(), table_of(["created", "started", "paused", "ended"]).rows());
}

#[test]
fn no_order_leads_back_to_created() {
    let mut table = table_of(["created", "started", "paused", "ended"]);
    assert_eq!(order_at(&mut table, "a", State::Created, 9), Outcome::Refused(State::Created));
    assert_eq!(order_at(&mut table, "b", State::Created, 9), Outcome::Refused(State::Started));
    assert_eq!(order_at(&mut table, "c", State::Created, 9), Outcome::Refused(State::Paused));
    assert_eq!(table.rows(), table_of(["created", "started", "paused", "ended"]).rows());
}

#[test]
fn which_state_leads_to_which() {
    let all = [State::Created, State::Started, State::Paused, State::Ended];
    let mut allowed: Vec<(State, State)> = Vec::new();
    for from in all {
        for target in all {
            if from.may_lead_to(target) {
                allowed.push((from, target));
            }
        }
    }
    assert_eq!(
        allowed,
        vec![
            (State::Created, State::Started),
            (State::Started, State::Paused),
            (State::Started, State::Ended),
            (State::Paused, State::Started),
            (State::Paused, State::Ended),
        ]
    );
}

#[test]
fn order_by_the_clock_creates_now() {
    let mut table = TaskTable::new();
    assert_eq!(order(&mut table, "x", State::Started), Outcome::CreatedAndDone);
    assert_eq!(table.rows()[0].state, "started");
    assert!(table.rows()[0].created_on >= 1_600_000_000);
    assert_eq!(order(&mut table, "x", State::Started), Outcome::Refused(State::Started));
    assert_eq!(order(&mut table, "x", State::Paused), Outcome::Done);
    assert_eq!(table.len(), 1);
}
