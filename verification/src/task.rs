//! Immutable description of one unit of download work.

use vstd::prelude::*;

verus! {

/// One download request: created at submission time, never mutated by the
/// engine except that a retry re-submits it with `skip_if_exists` disabled.
///
/// `id` correlates the task with its status and must be unique within a batch.
/// `expected_size` is the catalog-declared byte count, used for the progress
/// display; 0 means unknown.
#[derive(Clone, Debug)]
pub struct TaskDescriptor {
    pub id: usize,
    pub url: String,
    pub destination: String,
    pub expected_size: u64,
    pub skip_if_exists: bool,
}

impl TaskDescriptor {
    pub fn new(
        id: usize,
        url: String,
        destination: String,
        expected_size: u64,
        skip_if_exists: bool,
    ) -> (t: TaskDescriptor)
        ensures
            t.id == id,
            t.url == url,
            t.destination == destination,
            t.expected_size == expected_size,
            t.skip_if_exists == skip_if_exists,
    {
        TaskDescriptor { id, url, destination, expected_size, skip_if_exists }
    }

    /// Returns a value equal to `self` (a clone whose result is known to Verus).
    pub fn duplicate(&self) -> (t: TaskDescriptor)
        ensures
            t == *self,
    {
        TaskDescriptor {
            id: self.id,
            url: self.url.clone(),
            destination: self.destination.clone(),
            expected_size: self.expected_size,
            skip_if_exists: self.skip_if_exists,
        }
    }
}

/// The ids of a task sequence, position by position.
pub open spec fn ids_of(tasks: Seq<TaskDescriptor>) -> Seq<usize> {
    tasks.map_values(|t: TaskDescriptor| t.id)
}

/// The expected sizes of a task sequence, position by position.
pub open spec fn sizes_of(tasks: Seq<TaskDescriptor>) -> Seq<u64> {
    tasks.map_values(|t: TaskDescriptor| t.expected_size)
}

/// No two tasks share an id.
pub open spec fn ids_unique(tasks: Seq<TaskDescriptor>) -> bool {
    forall|i: int, j: int|
        0 <= i < tasks.len() && 0 <= j < tasks.len() && i != j ==> tasks[i].id != tasks[j].id
}

} // verus!
