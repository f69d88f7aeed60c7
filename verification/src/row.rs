//! The stored form of a task: one row of the table, with its instants and
//! its time as 32-bit seconds and its state as a code.

use vstd::prelude::*;
use vstd::string::*;
use crate::error::TaskError;
use crate::state::State;
use crate::task::{Task, TaskView};

verus! {

/// A row of the task table.
#[derive(Debug, Clone, PartialEq, Eq)]
pub struct SQLTask {
    pub label: String,
    pub time: i32,
    pub created_on: i32,
    pub begin_dt: i32,
    pub end_dt: i32,
    pub state: String,
}

/// A row as the contracts see it.
pub struct RowView {
    pub label: Seq<char>,
    pub time: i32,
    pub created_on: i32,
    pub begin_dt: i32,
    pub end_dt: i32,
    pub state: Seq<char>,
}

impl View for SQLTask {
    type V = RowView;

    open spec fn view(&self) -> RowView {
        RowView {
            label: self.label@,
            time: self.time,
            created_on: self.created_on,
            begin_dt: self.begin_dt,
            end_dt: self.end_dt,
            state: self.state@,
        }
    }
}

/// Whether a number can be stored as it is, in 32 bits.
pub open spec fn fits32(x: int) -> bool {
    i32::MIN <= x <= i32::MAX
}

/// What is left of a number in storage: its low 32 bits, read as a signed
/// number. A number that fits is kept as it is.
pub open spec fn wrap32(x: int) -> i32 {
    ((x + 0x8000_0000) % 0x1_0000_0000 - 0x8000_0000) as i32
}

impl RowView {
    /// The row that stores a task.
    pub open spec fn of_task(task: TaskView) -> RowView {
        RowView {
            label: task.label,
            time: wrap32(task.time),
            created_on: wrap32(task.created_on),
            begin_dt: wrap32(task.begin_dt),
            end_dt: wrap32(task.end_dt),
            state: task.state.sql_code(),
        }
    }

    /// The task that a row stores, if its state is one of the four codes.
    pub open spec fn task(self) -> Option<TaskView> {
        match State::of_sql_code(self.state) {
            Some(state) => Some(
                TaskView {
                    label: self.label,
                    time: self.time as int,
                    created_on: self.created_on as int,
                    begin_dt: self.begin_dt as int,
                    end_dt: self.end_dt as int,
                    state,
                },
            ),
            None => None,
        }
    }
}

/// Cuts a number down to its low 32 bits.
fn low32(x: i64) -> (low: i32)
    ensures
        low == wrap32(x as int),
{
    let low: i32 = #[verifier::truncate]
    (x as i32);
    assert((x as i32) as int == ((x as int) + 0x8000_0000) % 0x1_0000_0000 - 0x8000_0000)
        by (bit_vector);
    low
}

impl SQLTask {
    /// Makes the row that stores a task. The time and the instants are cut
    /// down to 32 bits; the state becomes its storage code.
    pub fn from_task(tsk: Task) -> (row: SQLTask)
        ensures
            row@ == RowView::of_task(tsk@),
    {
        SQLTask {
            label: tsk.label,
            time: low32(tsk.time),
            created_on: low32(tsk.created_on),
            begin_dt: low32(tsk.begin_dt),
            end_dt: low32(tsk.end_dt),
            state: tsk.state.to_sql().to_owned(),
        }
    }

    /// Reads the task that the row stores. A row whose state is none of the
    /// four storage codes stores no task: the conversion fails as a whole
    /// and hands the state text back in the error.
    pub fn as_task(&self) -> (res: Result<Task, TaskError>)
        ensures
            match self@.task() {
                Some(stored) => res matches Ok(task) && task@ == stored,
                None => res matches Err(TaskError::InvalidStateCode(token)) && token@
                    == self@.state,
            },
    {
        match State::from_sql(self.state.as_str()) {
            Ok(state) => Ok(
                Task {
                    label: self.label.clone(),
                    time: self.time as i64,
                    created_on: self.created_on as i64,
                    begin_dt: self.begin_dt as i64,
                    end_dt: self.end_dt as i64,
                    state,
                },
            ),
            Err(e) => Err(e),
        }
    }

    /// Copies the row.
    pub fn duplicate(&self) -> (copy: SQLTask)
        ensures
            copy@ == self@,
    {
        SQLTask {
            label: self.label.clone(),
            time: self.time,
            created_on: self.created_on,
            begin_dt: self.begin_dt,
            end_dt: self.end_dt,
            state: self.state.clone(),
        }
    }
}

} // verus!
