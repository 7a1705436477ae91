//! The table of spawned tasks and the queue of those ready to run.
use vstd::prelude::*;
use std::collections::BTreeMap;
use crate::server::task::{Task, TaskId};
use crate::server::queue::Queue;

verus! {

/// How many task ids the ready queue holds.
pub const TASK_CAPACITY: usize = 100;

/// The spawned tasks, by the number of their id, and the queue of the ids
/// of those ready to run.
pub struct Executor<F> {
    tasks: BTreeMap<u64, Task<F>>,
    task_queue: Queue,
}

/// The index of the first id in `ready` that has a task in `tasks`, from
/// `k` on.
pub open spec fn first_ready_from<F>(ready: Seq<TaskId>, tasks: Map<u64, Task<F>>, k: nat) -> Option<nat>
    decreases ready.len() - k,
{
    if k >= ready.len() {
        None
    } else if tasks.contains_key(ready[k as int].0) {
        Some(k)
    } else {
        first_ready_from(ready, tasks, k + 1)
    }
}

impl<F> Executor<F> {
    #[verifier::type_invariant]
    closed spec fn keyed_by_id(self) -> bool {
        forall|k: u64| #[trigger] self.tasks@.contains_key(k) ==> self.tasks@[k].id.0 == k
    }

    /// The spawned tasks that have not finished, by the number of their id.
    pub closed spec fn tasks(&self) -> Map<u64, Task<F>> {
        self.tasks@
    }

    /// The ids of the tasks ready to run, in the order they will run.
    pub closed spec fn ready(&self) -> Seq<TaskId> {
        self.task_queue@
    }

    /// The most ids that the ready queue holds.
    pub closed spec fn capacity(&self) -> nat {
        self.task_queue.capacity()
    }

    /// An executor without tasks.
    pub fn new() -> (e: Executor<F>)
        ensures
            e.tasks() == Map::<u64, Task<F>>::empty(),
            e.ready() == Seq::<TaskId>::empty(),
            e.capacity() == TASK_CAPACITY,
    {
        Executor { tasks: BTreeMap::new(), task_queue: Queue::new(TASK_CAPACITY) }
    }

    /// Adds a task and queues it to run; the ready queue must have room.
    pub fn spawn(&mut self, task: Task<F>)
        requires
            old(self).ready().len() < old(self).capacity(),
        ensures
            final(self).tasks() == old(self).tasks().insert(task.id.0, task),
            final(self).ready() == old(self).ready().push(task.id),
            final(self).capacity() == old(self).capacity(),
    {
        proof {
            use_type_invariant(&*self);
        }
        let task_id = task.id;
        let mut tasks = BTreeMap::new();
        std::mem::swap(&mut tasks, &mut self.tasks);
        tasks.insert(task_id.0, task);
        self.tasks = tasks;
        let mut queue = Queue::new(0);
        std::mem::swap(&mut queue, &mut self.task_queue);
        let pushed = queue.push(task_id);
        self.task_queue = queue;
    }

    /// Takes the next ready task out of the table to run it: the task of
    /// the first queued id that has one; the ids before it, of tasks that
    /// are gone, are dropped. None when no queued id has a task.
    pub fn next_task(&mut self) -> (r: Option<Task<F>>)
        ensures
            final(self).capacity() == old(self).capacity(),
            match first_ready_from(old(self).ready(), old(self).tasks(), 0) {
                Some(k) => {
                    let id = old(self).ready()[k as int].0;
                    &&& r == Some(old(self).tasks()[id])
                    &&& final(self).tasks() == old(self).tasks().remove(id)
                    &&& final(self).ready() == old(self).ready().skip((k + 1) as int)
                },
                None => r is None && final(self).tasks() == old(self).tasks() && final(self).ready().len() == 0,
            },
    {
        proof {
            use_type_invariant(&*self);
        }
        let ghost mut k: nat = 0;
        loop
            invariant
                self.capacity() == old(self).capacity(),
                self.tasks() == old(self).tasks(),
                k <= old(self).ready().len(),
                self.ready() == old(self).ready().skip(k as int),
                first_ready_from(old(self).ready(), old(self).tasks(), 0) == first_ready_from(old(self).ready(), old(self).tasks(), k),
            decreases self.ready().len(),
        {
            proof {
                use_type_invariant(&*self);
            }
            let mut queue = Queue::new(0);
            std::mem::swap(&mut queue, &mut self.task_queue);
            let popped = queue.pop();
            self.task_queue = queue;
            match popped {
                Some(id) => {
                    proof {
                        assert(id == old(self).ready()[k as int]);
                    }
                    let mut tasks = BTreeMap::new();
                    std::mem::swap(&mut tasks, &mut self.tasks);
                    let removed = tasks.remove(&id.0);
                    self.tasks = tasks;
                    match removed {
                        Some(task) => {
                            proof {
                                assert(self.ready() =~= old(self).ready().skip((k + 1) as int));
                            }
                            return Some(task);
                        },
                        None => {
                            proof {
                                assert(self.ready() =~= old(self).ready().skip((k + 1) as int));
                                k = k + 1;
                            }
                        },
                    }
                },
                None => return None,
            }
        }
    }

    /// Puts a task that has not finished back in the table, to run again
    /// when its id is queued.
    pub fn put_back(&mut self, task: Task<F>)
        ensures
            final(self).tasks() == old(self).tasks().insert(task.id.0, task),
            final(self).ready() == old(self).ready(),
            final(self).capacity() == old(self).capacity(),
    {
        proof {
            use_type_invariant(&*self);
        }
        let mut tasks = BTreeMap::new();
        std::mem::swap(&mut tasks, &mut self.tasks);
        tasks.insert(task.id.0, task);
        self.tasks = tasks;
    }

    /// Queues the id of a task to run, as its waker does; an error where
    /// the queue is full.
    pub fn wake(&mut self, id: TaskId) -> (r: Result<(), &'static str>)
        ensures
            final(self).tasks() == old(self).tasks(),
            final(self).capacity() == old(self).capacity(),
            old(self).ready().len() < old(self).capacity() ==> r is Ok && final(self).ready() == old(self).ready().push(id),
            old(self).ready().len() >= old(self).capacity() ==> r is Err && final(self).ready() == old(self).ready(),
    {
        proof {
            use_type_invariant(&*self);
        }
        let mut queue = Queue::new(0);
        std::mem::swap(&mut queue, &mut self.task_queue);
        let r = queue.push(id);
        self.task_queue = queue;
        r
    }

    /// Whether any task is ready to run.
    pub fn has_ready(&self) -> (r: bool)
        ensures
            r == (self.ready().len() > 0),
    {
        !self.task_queue.is_empty()
    }
}

} // verus!
