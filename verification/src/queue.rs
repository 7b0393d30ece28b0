//! A bounded, ordered command queue for one shard.
//!
//! The queue holds at most its fixed capacity of commands, in arrival
//! order. A full queue rejects an enqueue with `QueueFull` instead of
//! growing or dropping (backpressure), and a closed queue rejects every
//! enqueue with `QueueClosed`; closing is a one-time, idempotent step, and
//! a drained closed queue is end-of-stream for its consumer.

use crate::protocol::{Command, ServiceError};
use vstd::prelude::*;

verus! {

/// A bounded FIFO of commands for one shard.
pub struct CommandQueue {
    items: Vec<Command>,
    capacity: usize,
    closed: bool,
}

impl CommandQueue {
    /// The queued commands, oldest first.
    pub closed spec fn contents(&self) -> Seq<Command> {
        self.items@
    }

    /// The fixed capacity the queue was created with.
    pub closed spec fn cap(&self) -> int {
        self.capacity as int
    }

    /// Whether the queue was closed.
    pub closed spec fn is_closed(&self) -> bool {
        self.closed
    }

    /// The queue never holds more than its capacity.
    pub closed spec fn wf(&self) -> bool {
        self.items@.len() <= self.capacity && self.capacity >= 1
    }

    /// Creates an empty, open queue of the given capacity.
    pub fn new(capacity: usize) -> (q: CommandQueue)
        requires
            capacity >= 1,
        ensures
            q.wf(),
            q.contents() == Seq::<Command>::empty(),
            q.cap() == capacity,
            !q.is_closed(),
    {
        let q = CommandQueue { items: Vec::new(), capacity, closed: false };
        proof {
            assert(q.contents() =~= Seq::<Command>::empty());
        }
        q
    }

    /// How many commands are waiting.
    pub fn len(&self) -> (n: usize)
        ensures
            n == self.contents().len(),
    {
        self.items.len()
    }

    /// Whether the queue was closed.
    pub fn closed(&self) -> (c: bool)
        ensures
            c == self.is_closed(),
    {
        self.closed
    }

    /// Appends a command. A closed queue refuses with `QueueClosed`, a
    /// full one with `QueueFull` (backpressure: the command is not
    /// silently dropped, the producer must retry or give up); otherwise
    /// the command takes its place at the tail.
    pub fn enqueue(&mut self, command: Command) -> (r: Result<(), ServiceError>)
        requires
            old(self).wf(),
        ensures
            final(self).wf(),
            final(self).cap() == old(self).cap(),
            final(self).is_closed() == old(self).is_closed(),
            old(self).is_closed() ==> r == Err::<(), ServiceError>(ServiceError::QueueClosed)
                && final(self).contents() == old(self).contents(),
            !old(self).is_closed() && old(self).contents().len() == old(self).cap() ==> r == Err::<
                (),
                ServiceError,
            >(ServiceError::QueueFull) && final(self).contents() == old(self).contents(),
            !old(self).is_closed() && old(self).contents().len() < old(self).cap() ==> r == Ok::<
                (),
                ServiceError,
            >(()) && final(self).contents() == old(self).contents().push(command),
    {
        if self.closed {
            Err(ServiceError::QueueClosed)
        } else if self.items.len() == self.capacity {
            Err(ServiceError::QueueFull)
        } else {
            self.items.push(command);
            Ok(())
        }
    }

    /// Removes and returns the oldest command; `None` on an empty queue
    /// (the consumer should suspend, or stop once the queue is closed).
    pub fn dequeue(&mut self) -> (r: Option<Command>)
        requires
            old(self).wf(),
        ensures
            final(self).wf(),
            final(self).cap() == old(self).cap(),
            final(self).is_closed() == old(self).is_closed(),
            old(self).contents().len() == 0 ==> r is None
                && final(self).contents() == old(self).contents(),
            old(self).contents().len() > 0 ==> r == Some(old(self).contents()[0])
                && final(self).contents() == old(self).contents().remove(0),
    {
        if self.items.len() == 0 {
            None
        } else {
            Some(self.items.remove(0))
        }
    }

    /// Closes the queue: a one-time, idempotent step. Afterwards every
    /// enqueue fails with `QueueClosed`, and dequeues drain what is left.
    pub fn close(&mut self)
        requires
            old(self).wf(),
        ensures
            final(self).wf(),
            final(self).cap() == old(self).cap(),
            final(self).contents() == old(self).contents(),
            final(self).is_closed(),
    {
        self.closed = true;
    }
}

} // verus!
