use vstd::prelude::*;
use crate::job::{Job, MultiThreadMessage};

verus! {

/// One worker of a pool: what it has to remember between two messages.
#[derive(Debug)]
pub struct Worker {
    pub id: usize,
    /// Whether the worker still takes messages. A worker that has received the order
    /// to stop never runs again.
    pub running: bool,
}

impl Worker {
    /// A worker that waits for its first message.
    pub fn new(id: usize) -> (worker: Worker)
        ensures
            worker.id == id,
            worker.running,
    {
        Worker { id, running: true }
    }

    /// What the worker does with a message it has received: the job to execute, if the
    /// message brings one and the worker has not been told to stop before; nothing,
    /// and no further work ever, on the order to stop.
    pub fn receive<'a>(&mut self, message: MultiThreadMessage<'a>) -> (job: Option<Job<'a>>)
        ensures
            final(self).id == old(self).id,
            final(self).running == (old(self).running && message is NewJob),
            job == if old(self).running {
                match message {
                    MultiThreadMessage::NewJob(job) => Some(job),
                    MultiThreadMessage::Terminate => None,
                }
            } else {
                None
            },
    {
        if !self.running {
            return None;
        }
        match message {
            MultiThreadMessage::NewJob(job) => Some(job),
            MultiThreadMessage::Terminate => {
                self.running = false;
                None
            },
        }
    }
}

} // verus!
