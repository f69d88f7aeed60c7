//! Time tracking for named tasks: the task life cycle, the accounting of
//! elapsed time, the mapping onto stored rows and the task table.

pub mod clock;
pub mod command;
pub mod error;
pub mod laws;
pub mod models;
pub mod readable;
pub mod row;
pub mod state;
pub mod store;
pub mod task;
pub mod text;

pub use crate::command::{order, order_at, Outcome};
pub use crate::error::TaskError;
pub use crate::store::{
    change_task_label, change_task_state, clean_tasks, clean_tasks_at, create_task,
    create_task_at, delete_outcome, delete_task, get_task, get_task_with_state, get_tasks,
    set_task_state, task_exists, TaskTable,
};
