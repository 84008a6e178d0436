//! Tasks: handlers that take input and produce output, and a queue that
//! feeds a task one element per poll pass.

use crate::error::Error;
use crate::queue::Queue;
use std::collections::VecDeque;
use vstd::prelude::*;

verus! {

/// A handler that takes input and produces output.
pub trait Task<I, O>: Sized {
    /// Processes one input.
    fn run(&mut self, input: I) -> Result<O, Error>;

    /// A peek at the task's state, if it exposes one.
    fn state(&self) -> Option<O>;
}

/// Something that can be given a periodic execution opportunity.
pub trait Poll: Sized {
    /// One execution opportunity; an error is fatal to the caller's cycle.
    fn poll(&mut self) -> Result<(), Error>;

    /// Polls, swallowing any error.
    fn safe_poll(&mut self);
}

/// An input queue together with the task that consumes it.
#[derive(Debug)]
pub struct TaskQueue<I, O, T: Task<I, O>> {
    pub queue: VecDeque<I>,
    pub task: T,
    pub output_marker: std::marker::PhantomData<O>,
}

impl<I, O, T: Task<I, O>> TaskQueue<I, O, T> {
    /// A task queue with nothing pending.
    pub fn new(task: T) -> (r: TaskQueue<I, O, T>)
        ensures
            r.queue@ == Seq::<I>::empty(),
    {
        TaskQueue { queue: VecDeque::new(), task, output_marker: std::marker::PhantomData }
    }

    /// Appends an input at the back of the queue.
    pub fn enqueue(&mut self, element: I)
        ensures
            final(self).queue@ == old(self).queue@.push(element),
    {
        let _ = self.queue.enqueue(element);
    }

    /// Removes and returns the front input, if any.
    fn dequeue(&mut self) -> (r: Option<I>)
        ensures
            old(self).queue@.len() == 0 ==> r is None && final(self).queue@ == old(self).queue@,
            old(self).queue@.len() > 0 ==> (r matches Some(front) && front == old(self).queue@[0]
                && final(self).queue@ == old(self).queue@.drop_first()),
    {
        self.queue.dequeue()
    }
}

impl<I, O, T: Task<I, O>> Poll for TaskQueue<I, O, T> {
    /// Invokes the task once for each queued input, front first, stopping
    /// at the task's first error; on success the queue is empty.
    fn poll(&mut self) -> (r: Result<(), Error>)
        ensures
            r is Ok ==> final(self).queue@.len() == 0,
    {
        loop
            invariant_except_break
                true,
            ensures
                self.queue@.len() == 0,
            decreases self.queue@.len(),
        {
            match self.dequeue() {
                Some(element) => {
                    match self.task.run(element) {
                        Ok(_) => {
                        },
                        Err(e) => {
                            return Err(e);
                        },
                    }
                },
                None => {
                    break;
                },
            }
        }
        Ok(())
    }

    fn safe_poll(&mut self) {
        if self.poll().is_err() {
            // Errors are ignored here by design; poll() reports them.
        }
    }
}

} // verus!
