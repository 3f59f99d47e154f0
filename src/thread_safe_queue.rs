use vstd::prelude::*;
use vstd::rwlock::{RwLock, RwLockPredicate};

use crate::bounded_queue::BoundedQueue;

verus! {

/// What the lock of a `ThreadSafeQueue` guarantees of the queue inside it whenever it is
/// free: the queue is well-formed and keeps the capacity it was created with.
struct HeldQueue {
    max_size: usize,
}

impl<T> RwLockPredicate<BoundedQueue<T>> for HeldQueue {
    closed spec fn inv(self, q: BoundedQueue<T>) -> bool {
        q.wf() && q.capacity_spec() == self.max_size
    }
}

/// A bounded first-in-first-out queue shared by many threads.
///
/// Every operation holds the lock for its own duration only, so operations on one queue
/// are serialized: each one is a single step of `BoundedQueue`, whose contracts state
/// exactly what it does. A full queue rejects at once; an empty one answers `None` at once.
pub struct ThreadSafeQueue<T> {
    queue: RwLock<BoundedQueue<T>, HeldQueue>,
    max_size: usize,
}

impl<T> ThreadSafeQueue<T> {
    #[verifier::type_invariant]
    spec fn lock_keeps_capacity(self) -> bool {
        self.queue.pred() == (HeldQueue { max_size: self.max_size })
    }

    /// The most items the queue may hold, fixed at construction.
    pub closed spec fn capacity_spec(&self) -> nat {
        self.max_size as nat
    }

    /// An empty queue that will hold at most `max_size` items.
    pub fn new(max_size: usize) -> (r: Self)
        ensures
            r.capacity_spec() == max_size,
    {
        let q = BoundedQueue::new(max_size);
        let pred = Ghost(HeldQueue { max_size });
        ThreadSafeQueue { queue: RwLock::new(q, pred), max_size }
    }

    /// Appends `item` at the tail and returns `true` if the queue had room at the moment
    /// the call took the lock; otherwise returns `false` and changes nothing.
    pub fn enqueue(&self, item: T) -> (r: bool)
        ensures
            self.capacity_spec() == 0 ==> !r,
    {
        proof {
            use_type_invariant(self);
        }
        let (mut q, handle) = self.queue.acquire_write();
        let r = q.enqueue(item);
        handle.release_write(q);
        r
    }

    /// Removes and returns the oldest item, or `None` if the queue was empty at the moment
    /// the call took the lock.
    pub fn dequeue(&self) -> (r: Option<T>)
        ensures
            self.capacity_spec() == 0 ==> r is None,
    {
        proof {
            use_type_invariant(self);
        }
        let (mut q, handle) = self.queue.acquire_write();
        proof {
            q.lemma_within_capacity();
        }
        let r = q.dequeue();
        handle.release_write(q);
        r
    }

    /// The number of items held at the moment the call took the lock: never more than
    /// the capacity.
    pub fn size(&self) -> (r: usize)
        ensures
            r <= self.capacity_spec(),
    {
        proof {
            use_type_invariant(self);
        }
        let handle = self.queue.acquire_read();
        let r = handle.borrow().size();
        handle.release_read();
        r
    }

    /// The most items the queue may hold.
    pub fn capacity(&self) -> (r: usize)
        ensures
            r == self.capacity_spec(),
    {
        self.max_size
    }
}

} // verus!
