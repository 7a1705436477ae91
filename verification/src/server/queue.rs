//! A bounded first-in first-out queue of task ids.
use vstd::prelude::*;
use std::collections::VecDeque;
use crate::server::task::TaskId;

verus! {

/// A queue of task ids that holds at most `size` of them.
pub struct Queue {
    tasks: VecDeque<TaskId>,
    size: usize,
}

impl View for Queue {
    type V = Seq<TaskId>;

    closed spec fn view(&self) -> Seq<TaskId> {
        self.tasks@
    }
}

impl Queue {
    #[verifier::type_invariant]
    closed spec fn within_size(self) -> bool {
        self.tasks@.len() <= self.size
    }

    /// The most ids that the queue holds.
    pub closed spec fn capacity(&self) -> nat {
        self.size as nat
    }

    /// An empty queue for at most `size` ids.
    pub fn new(size: usize) -> (q: Queue)
        ensures
            q@ == Seq::<TaskId>::empty(),
            q.capacity() == size,
    {
        Queue { tasks: VecDeque::with_capacity(size), size }
    }

    /// Whether the queue is empty.
    pub fn is_empty(&self) -> (r: bool)
        ensures
            r == (self@.len() == 0),
    {
        self.tasks.len() == 0
    }

    /// The number of ids in the queue.
    pub fn len(&self) -> (n: usize)
        ensures
            n == self@.len(),
            n <= self.capacity(),
    {
        proof {
            use_type_invariant(self);
        }
        self.tasks.len()
    }

    /// Adds an id at the back, unless the queue is full.
    pub fn push(&mut self, value: TaskId) -> (r: Result<(), &'static str>)
        ensures
            final(self).capacity() == old(self).capacity(),
            old(self)@.len() >= old(self).capacity() ==> r == Err::<(), &'static str>("Queue is at max capacity!")
                && final(self)@ == old(self)@,
            old(self)@.len() < old(self).capacity() ==> r is Ok && final(self)@ == old(self)@.push(value),
            final(self)@.len() <= final(self).capacity(),
    {
        proof {
            use_type_invariant(&*self);
        }
        if self.tasks.len() >= self.size {
            Err("Queue is at max capacity!")
        } else {
            let mut tasks = VecDeque::new();
            std::mem::swap(&mut tasks, &mut self.tasks);
            tasks.push_back(value);
            self.tasks = tasks;
            Ok(())
        }
    }

    /// Takes the id at the front, if there is one.
    pub fn pop(&mut self) -> (r: Option<TaskId>)
        ensures
            final(self).capacity() == old(self).capacity(),
            old(self)@.len() == 0 ==> r is None && final(self)@ == old(self)@,
            old(self)@.len() > 0 ==> r == Some(old(self)@[0]) && final(self)@ == old(self)@.drop_first(),
    {
        proof {
            use_type_invariant(&*self);
        }
        let mut tasks = VecDeque::new();
        std::mem::swap(&mut tasks, &mut self.tasks);
        let r = tasks.pop_front();
        self.tasks = tasks;
        r
    }
}

/// Ids come out of a queue in the order in which they went in: after `a`
/// and then `b` are pushed onto an empty queue that has room for both,
/// popping gives `a` and then `b`.
pub proof fn lemma_queue_fifo(q0: Seq<TaskId>, a: TaskId, b: TaskId)
    requires
        q0.len() == 0,
    ensures
        q0.push(a).push(b)[0] == a,
        q0.push(a).push(b).drop_first()[0] == b,
        q0.push(a).push(b).drop_first().drop_first().len() == 0,
{
}

} // verus!
