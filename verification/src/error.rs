//! The failures that the library reports.

use vstd::prelude::*;
use crate::state::State;

verus! {

/// Why an operation was refused.
#[derive(Debug, Clone, PartialEq, Eq)]
pub enum TaskError {
    /// A life-cycle operation was asked of a task whose state does not
    /// permit it; the state the task was in is attached.
    InvalidTransition(State),
    /// A text is no state code of the vocabulary it was read in; the text is
    /// attached.
    InvalidStateCode(String),
    /// No task carries the label that is attached.
    NotFound(String),
    /// The table refused the operation: a label would occur twice.
    StorageError,
}

} // verus!
