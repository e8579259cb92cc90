//! A first-in first-out lane of small values.
use vstd::prelude::*;
use std::collections::VecDeque;

verus! {

/// A FIFO queue: values come out in the order they went in.
pub struct LockFreeQueue<T> {
    items: VecDeque<T>,
}

impl<T> View for LockFreeQueue<T> {
    type V = Seq<T>;

    /// The queued values, oldest first.
    closed spec fn view(&self) -> Seq<T> {
        self.items@
    }
}

impl<T> LockFreeQueue<T> {
    /// An empty queue.
    pub fn new() -> (r: LockFreeQueue<T>)
        ensures
            r@ == Seq::<T>::empty(),
    {
        LockFreeQueue { items: VecDeque::new() }
    }

    /// Adds `data` at the back; it always succeeds.
    pub fn enqueue(&mut self, data: T)
        ensures
            final(self)@ == old(self)@.push(data),
    {
        self.items.push_back(data);
    }

    /// Takes the oldest value, or `None` when the queue is empty.
    pub fn dequeue(&mut self) -> (r: Option<T>)
        ensures
            old(self)@.len() == 0 ==> r is None && final(self)@ == old(self)@,
            old(self)@.len() > 0 ==> r == Some(old(self)@[0]) && final(self)@ == old(self)@.drop_first(),
    {
        let r = self.items.pop_front();
        proof {
            if old(self)@.len() > 0 {
                assert(self.items@ =~= old(self)@.drop_first());
            }
        }
        r
    }

    /// Number of queued values.
    pub fn len(&self) -> (r: usize)
        ensures
            r == self@.len(),
    {
        self.items.len()
    }

    /// Whether nothing is queued.
    pub fn is_empty(&self) -> (r: bool)
        ensures
            r == (self@.len() == 0),
    {
        self.items.len() == 0
    }
}

} // verus!
