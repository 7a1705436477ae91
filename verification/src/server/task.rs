//! Tasks and their ids.
use vstd::prelude::*;

verus! {

/// The id of a task.
#[derive(Debug, Clone, Copy, PartialEq, Eq, Structural)]
pub struct TaskId(pub u64);

/// A task: its id and the work it stands for.
pub struct Task<F> {
    pub id: TaskId,
    pub future: F,
}

impl<F> Task<F> {
    /// A task with the given id for the given work.
    pub fn new(id: TaskId, future: F) -> (t: Task<F>)
        ensures
            t.id == id,
            t.future == future,
    {
        Task { id, future }
    }
}

} // verus!
