//! Orders on the task table as a user gives them: bring the task under a
//! label to a state, and learn what came of it.

use vstd::prelude::*;
use crate::clock::{is_clock_reading, now_timestamp};
use crate::row::RowView;
use crate::state::State;
use crate::store::{
    create_task_at, fresh_row, get_task, labels, lemma_place, restated, set_task_state, TaskTable,
};

verus! {

/// What came of an order.
#[derive(Clone, Copy, Debug, PartialEq, Eq, Structural)]
pub enum Outcome {
    /// The task was brought to the state.
    Done,
    /// No task was kept under the label: one was created and brought to the
    /// state.
    CreatedAndDone,
    /// The task is in the state attached, from which the order cannot be
    /// followed; nothing was changed.
    Refused(State),
    /// No task is kept under the label; nothing was changed.
    Missing,
}

/// What comes of the order to bring the task under `label` to `target`. A
/// task that is kept follows the order if its state leads to `target` and
/// refuses it otherwise. Where none is kept, the order to start creates
/// the task; any other order finds it missing.
pub open spec fn outcome_of(rows: Seq<RowView>, label: Seq<char>, target: State) -> Outcome {
    if labels(rows).contains(label) {
        let state = State::of_sql_code(rows[labels(rows).index_of(label)].state).unwrap();
        if state.leads_to(target) {
            Outcome::Done
        } else {
            Outcome::Refused(state)
        }
    } else if target == State::Started {
        Outcome::CreatedAndDone
    } else {
        Outcome::Missing
    }
}

/// The rows after the order to bring the task under `label` to `target`,
/// given at `now`. An order that is followed sets the state of the task's
/// row and nothing else; one that creates the task adds its row, in the
/// state asked for, at the end.
pub open spec fn rows_after(rows: Seq<RowView>, label: Seq<char>, target: State, now: int) -> Seq<
    RowView,
> {
    match outcome_of(rows, label, target) {
        Outcome::Done => rows.update(
            labels(rows).index_of(label),
            restated(rows[labels(rows).index_of(label)], target),
        ),
        Outcome::CreatedAndDone => rows.push(restated(fresh_row(label, now), target)),
        _ => rows,
    }
}

/// Follows the order, given at `now`, to bring the task under `input` to
/// `target`, and tells what came of it.
pub fn order_at(table: &mut TaskTable, input: &str, target: State, now: i64) -> (outcome: Outcome)
    requires
        old(table).wf(),
    ensures
        final(table).wf(),
        outcome == outcome_of(old(table)@, input@, target),
        final(table)@ == rows_after(old(table)@, input@, target, now as int),
{
    match get_task(table, input) {
        Some(task) => {
            if task.state.may_lead_to(target) {
                let _ = set_task_state(table, input, target);
                Outcome::Done
            } else {
                Outcome::Refused(task.state)
            }
        },
        None => match target {
            State::Started => {
                let _ = create_task_at(table, input, now);
                proof {
                    let grown = table@;
                    let last = old(table)@.len() as int;
                    assert(grown[last].label == input@);
                    lemma_place(grown, input@, last);
                }
                let _ = set_task_state(table, input, target);
                assert(table@ =~= rows_after(old(table)@, input@, target, now as int));
                Outcome::CreatedAndDone
            },
            _ => Outcome::Missing,
        },
    }
}

/// Follows the order to bring the task under `input` to `target`, given at
/// the instant the clock reports, and tells what came of it; see
/// `order_at`. The clock is read once.
pub fn order(table: &mut TaskTable, input: &str, target: State) -> (outcome: Outcome)
    requires
        old(table).wf(),
    ensures
        final(table).wf(),
        outcome == outcome_of(old(table)@, input@, target),
        exists|now: int|
            is_clock_reading(now) && final(table)@ == #[trigger] rows_after(
                old(table)@,
                input@,
                target,
                now,
            ),
{
    let now: i64 = now_timestamp();
    let outcome = order_at(table, input, target, now);
    assert(is_clock_reading(now as int) && table@ == rows_after(
        old(table)@,
        input@,
        target,
        now as int,
    ));
    outcome
}

} // verus!
