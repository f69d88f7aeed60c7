//! The data of the library under one roof: the state, the task, the stored
//! row and the readable form of a duration.

pub use crate::readable::time_to_readable;
pub use crate::row::SQLTask;
pub use crate::state::{State, Style};
pub use crate::task::Task;
