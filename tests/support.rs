use std::time::Duration;
use zark_messenger::allocator::MemoryAllocator;
use zark_messenger::channel::{SignalChannel, TryRecv, TrySendError};
use zark_messenger::pool::PoolAllocator;
use zark_messenger::queue::LockFreeQueue;
use zark_messenger::waiter::Waiter;

#[test]
fn queue_is_first_in_first_out() {
    let mut q = LockFreeQueue::new();
    assert!(q.is_empty());
    for i in 0..10 {
        q.enqueue(i);
    }
    assert_eq!(q.len(), 10);
    for i in 0..10 {
        assert_eq!(q.dequeue(), Some(i));
    }
    assert_eq!(q.dequeue(), None);
}

#[test]
fn channel_bounded_and_closable() {
    let mut c = SignalChannel::new(2);
    assert_eq!(c.try_recv(), TryRecv::Empty);
    assert_eq!(c.try_send(5), Ok(()));
    assert_eq!(c.try_send(6), Ok(()));
    assert_eq!(c.try_send(7), Err(TrySendError::Full));
    c.close();
    c.close();
    assert_eq!(c.try_send(8), Err(TrySendError::Closed));
    assert_eq!(c.try_recv(), TryRecv::Item(5));
    assert_eq!(c.try_recv(), TryRecv::Item(6));
    assert_eq!(c.try_recv(), TryRecv::Closed);
    c.reset();
    assert_eq!(c.try_send(9), Ok(()));
    assert_eq!(c.len(), 1);
}

#[test]
fn pool_grows_by_a_chunk_and_reuses() {
    let mut p = PoolAllocator::new(32);
    let a = p.allocate();
    assert_eq!(a, 0);
    assert_eq!(p.buffer(a).len(), 32);
    let mut handles = vec![a];
    for _ in 1..64 {
        handles.push(p.allocate());
    }
    handles.sort();
    assert_eq!(handles, (0..64).collect::<Vec<usize>>());
    let next = p.allocate();
    assert_eq!(next, 64);
    assert!(p.deallocate(5));
    assert!(!p.deallocate(5));
    assert!(!p.deallocate(1000));
    assert_eq!(p.allocate(), 5);
}

#[test]
fn pool_buffer_write() {
    let mut p = PoolAllocator::new(8);
    let h = p.allocate();
    p.write(h, 2, &[1, 2, 3]);
    assert_eq!(p.buffer(h), &[0, 0, 1, 2, 3, 0, 0, 0]);
}

#[test]
fn bump_allocator_aligns_and_runs_out() {
    let mut a = MemoryAllocator::new(64);
    assert_eq!(a.allocate(3, 1), Some(0));
    assert_eq!(a.allocate(8, 8), Some(8));
    assert_eq!(a.allocate(1, 4), Some(16));
    assert_eq!(a.allocate(48, 16), None);
    assert_eq!(a.allocate(32, 32), Some(32));
    assert_eq!(a.allocate(1, 1), None);
    a.dealloc(0, 3);
    assert_eq!(a.heap().len(), 64);
}

#[test]
fn waiter_times_out_without_notification() {
    let w = Waiter::new();
    assert!(!w.wait_timeout(Duration::from_millis(20)));
}

#[test]
fn waiter_lets_one_wait_through_per_notification() {
    let w = Waiter::new();
    w.notify_one();
    assert!(w.wait_timeout(Duration::from_millis(20)));
    assert!(!w.wait_timeout(Duration::from_millis(20)));
    w.notify_all();
    w.wait();
}
