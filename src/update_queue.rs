use vstd::prelude::*;

use std::collections::VecDeque;

use crate::errors::ReplicaError;

verus! {

/// The single-consumer queue through which every mutation of a replica passes: tasks
/// leave it one at a time, in the order they were submitted.
pub struct SingularUpdateQueue<T> {
    pub(crate) tasks: VecDeque<T>,
    pub(crate) capacity: usize,
    pub(crate) accepting: bool,
}

/// The number of tasks a queue holds by default before it refuses more.
pub const DEFAULT_CAPACITY: usize = 100;

/// The queue after `task` is submitted: the task waits behind all the others.
pub open spec fn submitted<T>(queue: Seq<T>, task: T) -> Seq<T> {
    queue.push(task)
}

/// The queue after its next task is taken: the one submitted first leaves.
pub open spec fn taken<T>(queue: Seq<T>) -> Seq<T> {
    queue.drop_first()
}

impl<T> View for SingularUpdateQueue<T> {
    type V = Seq<T>;

    open(crate) spec fn view(&self) -> Seq<T> {
        self.tasks@
    }
}

impl<T> SingularUpdateQueue<T> {
    /// Whether the queue still takes submissions.
    pub open(crate) spec fn spec_accepting(&self) -> bool {
        self.accepting
    }

    /// The most tasks the queue holds at once.
    pub open(crate) spec fn spec_capacity(&self) -> usize {
        self.capacity
    }

    /// An empty queue that takes submissions and holds at most `capacity` tasks.
    pub fn new(capacity: usize) -> (r: SingularUpdateQueue<T>)
        ensures
            r@ == Seq::<T>::empty(),
            r.spec_accepting(),
            r.spec_capacity() == capacity,
    {
        SingularUpdateQueue { tasks: VecDeque::new(), capacity, accepting: true }
    }

    pub fn capacity(&self) -> (r: usize)
        ensures
            r == self.spec_capacity(),
    {
        self.capacity
    }

    /// Whether one more task fits.
    pub fn has_room(&self) -> (r: bool)
        ensures
            r == (self@.len() < self.spec_capacity()),
    {
        self.tasks.len() < self.capacity
    }

    /// Queues a task behind those already submitted. After shutdown it is refused; while
    /// `capacity` tasks wait, it is refused as well and the caller may try again later.
    pub fn submit(&mut self, task: T) -> (r: Result<(), ReplicaError>)
        ensures
            r is Ok <==> old(self).spec_accepting() && old(self)@.len() < old(self).spec_capacity(),
            !old(self).spec_accepting() ==> r == Err::<(), ReplicaError>(
                ReplicaError::ShutdownInProgress,
            ),
            old(self).spec_accepting() && old(self)@.len() >= old(self).spec_capacity() ==> r
                == Err::<(), ReplicaError>(ReplicaError::QueueFull),
            final(self)@ == if r is Ok {
                submitted(old(self)@, task)
            } else {
                old(self)@
            },
            final(self)@.len() <= final(self).spec_capacity() || final(self)@ == old(self)@,
            final(self).spec_accepting() == old(self).spec_accepting(),
            final(self).spec_capacity() == old(self).spec_capacity(),
    {
        if !self.accepting {
            return Err(ReplicaError::ShutdownInProgress);
        }
        if self.tasks.len() >= self.capacity {
            return Err(ReplicaError::QueueFull);
        }
        self.tasks.push_back(task);
        Ok(())
    }

    /// Takes the task that was submitted first among those still queued.
    pub fn next_task(&mut self) -> (r: Option<T>)
        ensures
            r is None <==> old(self)@.len() == 0,
            r is Some ==> r->0 == old(self)@[0] && final(self)@ == taken(old(self)@),
            r is None ==> final(self)@ == old(self)@,
            final(self).spec_accepting() == old(self).spec_accepting(),
            final(self).spec_capacity() == old(self).spec_capacity(),
    {
        self.tasks.pop_front()
    }

    /// Stops taking submissions; the tasks already queued still run.
    pub fn shutdown(&mut self)
        ensures
            final(self)@ == old(self)@,
            !final(self).spec_accepting(),
            final(self).spec_capacity() == old(self).spec_capacity(),
    {
        self.accepting = false;
    }

    pub fn len(&self) -> (r: usize)
        ensures
            r == self@.len(),
    {
        self.tasks.len()
    }

    pub fn is_accepting(&self) -> (r: bool)
        ensures
            r == self.spec_accepting(),
    {
        self.accepting
    }

    /// Takes every queued task, in the order they would run.
    pub fn drain(&mut self) -> (r: Vec<T>)
        ensures
            r@ == old(self)@,
            final(self)@ == Seq::<T>::empty(),
            final(self).spec_accepting() == old(self).spec_accepting(),
            final(self).spec_capacity() == old(self).spec_capacity(),
    {
        let mut out: Vec<T> = Vec::new();
        while self.tasks.len() > 0
            invariant
                out@ + self@ == old(self)@,
                self.accepting == old(self).accepting,
                self.capacity == old(self).capacity,
            decreases self@.len(),
        {
            let t = self.tasks.pop_front();
            match t {
                Some(t) => {
                    out.push(t);
                },
                None => {},
            }
            assert(out@ + self@ =~= old(self)@);
        }
        assert(out@ =~= old(self)@);
        out
    }
}

} // verus!
