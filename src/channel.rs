//! A bounded, closable hand-off of slot indices, first in first out.
use vstd::prelude::*;
use std::collections::VecDeque;

verus! {

/// Why a send on the channel did not go through.
#[derive(Debug, Clone, Copy, PartialEq, Eq)]
pub enum TrySendError {
    /// The channel holds as many items as its capacity.
    Full,
    /// The channel was closed.
    Closed,
}

/// What a receive on the channel found.
#[derive(Debug, Clone, Copy, PartialEq, Eq)]
pub enum TryRecv {
    /// The oldest item, now taken out.
    Item(usize),
    /// Nothing is queued, and the channel is open.
    Empty,
    /// Nothing is queued, and the channel is closed.
    Closed,
}

/// A bounded FIFO channel: sends fail once it is closed, receives drain
/// what is left and then report it closed.
pub struct SignalChannel {
    items: VecDeque<usize>,
    capacity: usize,
    closed: bool,
}

impl SignalChannel {
    /// The queued items, oldest first.
    pub closed spec fn items(&self) -> Seq<usize> {
        self.items@
    }

    pub closed spec fn capacity(&self) -> nat {
        self.capacity as nat
    }

    pub closed spec fn is_closed(&self) -> bool {
        self.closed
    }

    pub open spec fn wf(&self) -> bool {
        self.items().len() <= self.capacity() && self.capacity() >= 1
    }

    /// An open, empty channel that holds up to `capacity` items.
    pub fn new(capacity: usize) -> (r: SignalChannel)
        requires
            capacity >= 1,
        ensures
            r.wf(),
            r.items() == Seq::<usize>::empty(),
            r.capacity() == capacity,
            !r.is_closed(),
    {
        SignalChannel { items: VecDeque::new(), capacity, closed: false }
    }

    /// Queues `item` unless the channel is closed or full.
    pub fn try_send(&mut self, item: usize) -> (r: Result<(), TrySendError>)
        requires
            old(self).wf(),
        ensures
            final(self).wf(),
            final(self).capacity() == old(self).capacity(),
            final(self).is_closed() == old(self).is_closed(),
            old(self).is_closed() ==> r == Err::<(), TrySendError>(TrySendError::Closed) && final(self).items() == old(self).items(),
            !old(self).is_closed() && old(self).items().len() == old(self).capacity() ==> r == Err::<(), TrySendError>(TrySendError::Full)
                && final(self).items() == old(self).items(),
            !old(self).is_closed() && old(self).items().len() < old(self).capacity() ==> r is Ok && final(self).items() == old(self).items().push(item),
    {
        if self.closed {
            return Err(TrySendError::Closed);
        }
        if self.items.len() >= self.capacity {
            return Err(TrySendError::Full);
        }
        self.items.push_back(item);
        Ok(())
    }

    /// Takes the oldest item; once closed and empty, reports `Closed`.
    pub fn try_recv(&mut self) -> (r: TryRecv)
        requires
            old(self).wf(),
        ensures
            final(self).wf(),
            final(self).capacity() == old(self).capacity(),
            final(self).is_closed() == old(self).is_closed(),
            old(self).items().len() > 0 ==> r == TryRecv::Item(old(self).items()[0]) && final(self).items()
                == old(self).items().drop_first(),
            old(self).items().len() == 0 ==> final(self).items() == old(self).items() && r == (if old(
                self,
            ).is_closed() {
                TryRecv::Closed
            } else {
                TryRecv::Empty
            }),
    {
        match self.items.pop_front() {
            Some(i) => {
                assert(self.items@ =~= old(self).items@.drop_first());
                TryRecv::Item(i)
            },
            None => if self.closed {
                TryRecv::Closed
            } else {
                TryRecv::Empty
            },
        }
    }

    /// Closes the channel; closing twice is the same as once.
    pub fn close(&mut self)
        requires
            old(self).wf(),
        ensures
            final(self).wf(),
            final(self).is_closed(),
            final(self).items() == old(self).items(),
            final(self).capacity() == old(self).capacity(),
    {
        self.closed = true;
    }

    /// Drops every queued item, and opens the channel again.
    pub fn reset(&mut self)
        requires
            old(self).wf(),
        ensures
            final(self).wf(),
            !final(self).is_closed(),
            final(self).items() == Seq::<usize>::empty(),
            final(self).capacity() == old(self).capacity(),
    {
        self.items.clear();
        self.closed = false;
    }

    /// Number of queued items.
    pub fn len(&self) -> (r: usize)
        ensures
            r == self.items().len(),
    {
        self.items.len()
    }
}

} // verus!
