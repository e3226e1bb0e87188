//! Single-producer broadcast channel with independent subscriber cursors.
//!
//! One writer publishes messages; any number of subscribers read them, each
//! at its own pace, through a [`Cursor`] of its own. The channel keeps the
//! full publish log and bounds a subscriber's backlog by `capacity`: a
//! subscriber that falls more than `capacity` messages behind is lagged, the
//! messages before the last `capacity` are dropped for it (drop-oldest,
//! best-effort broadcast), and it resumes at the oldest retained message.
//! Slow subscribers never block the publisher or each other; every
//! subscriber receives the messages it is given in publish order, as an
//! immutable view.

use vstd::prelude::*;

verus! {

/// A broadcast channel: a publish log, a per-subscriber backlog bound, and a
/// closed flag set once the producer is done.
pub struct FanOut<T> {
    /// Every message ever published, oldest first. A subscriber can only
    /// reach the last `capacity` of them.
    pub messages: Vec<T>,
    /// How many messages a subscriber may fall behind before it is lagged.
    pub capacity: usize,
    /// Whether the producer has stopped; a drained subscriber then sees
    /// `Closed` instead of `Empty`.
    pub closed: bool,
}

/// A subscriber's position: the index into the publish log of the next
/// message to receive.
pub struct Cursor {
    /// Index of the next message to receive.
    pub next: usize,
}

/// The outcome of one non-blocking receive.
pub enum RecvOutcome<'a, T> {
    /// The next message, in publish order, as an immutable view.
    Message(&'a T),
    /// The subscriber fell behind by more than the channel's capacity; this
    /// many messages were dropped for it, and it resumes at the oldest
    /// retained message.
    Lagged(usize),
    /// No message pending and the producer may still publish.
    Empty,
    /// No message pending and the producer has stopped for good.
    Closed,
}

/// An error returned by a timed wait on a channel.
pub enum WaitError {
    /// No matching message arrived within the window; fully recoverable,
    /// and no pending message was consumed.
    Timeout,
    /// The subscriber fell behind and this many messages were dropped.
    Lagged(usize),
    /// The producer has stopped; permanent for this channel.
    Closed,
}

impl<T> FanOut<T> {
    /// A channel is well formed when its backlog bound admits at least one
    /// message.
    pub open spec fn wf(self) -> bool {
        self.capacity >= 1
    }

    /// Create an open channel with the given backlog bound.
    pub fn new(capacity: usize) -> (r: FanOut<T>)
        requires
            capacity >= 1,
        ensures
            r.wf(),
            r.messages@ == Seq::<T>::empty(),
            r.capacity == capacity,
            !r.closed,
    {
        FanOut { messages: Vec::new(), capacity, closed: false }
    }

    /// Attach a new subscriber. It will receive exactly the messages
    /// published after this point (and only while it keeps up).
    pub fn subscribe(&self) -> (c: Cursor)
        ensures
            c.next == self.messages@.len(),
    {
        Cursor { next: self.messages.len() }
    }

    /// Publish one message: it is appended at the tail of the log, after
    /// everything published before it, and nothing else changes.
    pub fn publish(&mut self, msg: T)
        requires
            !old(self).closed,
        ensures
            final(self).messages@ == old(self).messages@.push(msg),
            final(self).capacity == old(self).capacity,
            final(self).closed == old(self).closed,
    {
        self.messages.push(msg);
    }

    /// Stop the channel: already-published messages stay readable, and a
    /// drained subscriber sees `Closed` from now on.
    pub fn close(&mut self)
        ensures
            final(self).messages@ == old(self).messages@,
            final(self).capacity == old(self).capacity,
            final(self).closed,
    {
        self.closed = true;
    }

    /// Receive the next message for the subscriber at `cursor`, without
    /// blocking.
    ///
    /// Messages come back in publish order: a successful receive returns the
    /// message at the cursor's position and advances the cursor past it, so
    /// positions of successive received messages strictly increase. A
    /// subscriber more than `capacity` behind is told how much it lost and
    /// resumes at the oldest retained message. The cursor never retreats,
    /// and nothing is consumed when no message is pending.
    pub fn recv<'a>(&'a self, cursor: &mut Cursor) -> (r: RecvOutcome<'a, T>)
        requires
            self.wf(),
            old(cursor).next <= self.messages@.len(),
        ensures
            self.messages@.len() - old(cursor).next > self.capacity ==> (r matches
                RecvOutcome::Lagged(skipped) && final(cursor).next + self.capacity
                == self.messages@.len() && skipped + self.capacity + old(cursor).next
                == self.messages@.len()),
            old(cursor).next < self.messages@.len() && self.messages@.len() - old(cursor).next
                <= self.capacity ==> (r matches RecvOutcome::Message(m) && *m
                == self.messages@[old(cursor).next as int] && final(cursor).next == old(
                cursor,
            ).next + 1),
            old(cursor).next == self.messages@.len() ==> *final(cursor) == *old(cursor) && (
            if self.closed {
                r is Closed
            } else {
                r is Empty
            }),
            old(cursor).next <= final(cursor).next <= self.messages@.len(),
    {
        let len = self.messages.len();
        if len - cursor.next > self.capacity {
            let oldest = len - self.capacity;
            let skipped = oldest - cursor.next;
            cursor.next = oldest;
            RecvOutcome::Lagged(skipped)
        } else if cursor.next < len {
            let idx = cursor.next;
            cursor.next = idx + 1;
            RecvOutcome::Message(&self.messages[idx])
        } else if self.closed {
            RecvOutcome::Closed
        } else {
            RecvOutcome::Empty
        }
    }

    /// One timed wait on the channel: the caller's runtime races a timer
    /// against the arrival of a message and reports, through `timer_fired`,
    /// whether the timer resolved first; this function decides the outcome.
    ///
    /// A pending message wins over an expired timer. A timeout consumes
    /// nothing: the cursor stays where it was, so a message that arrives
    /// just after the window is returned by the next wait. `Closed` is
    /// reported only once the channel is both stopped and drained, and is
    /// then permanent.
    pub fn await_next<'a>(&'a self, cursor: &mut Cursor, timer_fired: bool) -> (r: Result<
        &'a T,
        WaitError,
    >)
        requires
            self.wf(),
            old(cursor).next <= self.messages@.len(),
            // the race has resolved: a message is pending, the producer has
            // stopped, or the timer fired
            old(cursor).next < self.messages@.len() || self.closed || timer_fired,
        ensures
            self.messages@.len() - old(cursor).next > self.capacity ==> (r matches Err(e)
                && e matches WaitError::Lagged(skipped) && final(cursor).next + self.capacity
                == self.messages@.len() && skipped + self.capacity + old(cursor).next
                == self.messages@.len()),
            old(cursor).next < self.messages@.len() && self.messages@.len() - old(cursor).next
                <= self.capacity ==> (r matches Ok(m) && *m
                == self.messages@[old(cursor).next as int] && final(cursor).next == old(
                cursor,
            ).next + 1),
            old(cursor).next == self.messages@.len() && timer_fired ==> (r matches Err(
                WaitError::Timeout,
            ) && *final(cursor) == *old(cursor)),
            old(cursor).next == self.messages@.len() && !timer_fired && self.closed ==> (r matches
                Err(WaitError::Closed) && *final(cursor) == *old(cursor)),
            old(cursor).next <= final(cursor).next <= self.messages@.len(),
    {
        match self.recv(cursor) {
            RecvOutcome::Message(m) => Ok(m),
            RecvOutcome::Lagged(n) => Err(WaitError::Lagged(n)),
            RecvOutcome::Empty => Err(WaitError::Timeout),
            RecvOutcome::Closed => {
                if timer_fired {
                    Err(WaitError::Timeout)
                } else {
                    Err(WaitError::Closed)
                }
            }
        }
    }
}

} // verus!
