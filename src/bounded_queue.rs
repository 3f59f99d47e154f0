use std::collections::VecDeque;
use vstd::prelude::*;

verus! {

/// What `enqueue` leaves in a queue holding `items` with room for `cap` items:
/// `x` appended at the tail when there is room, the queue unchanged when it is full.
pub open spec fn enqueue_step<T>(items: Seq<T>, cap: nat, x: T) -> Seq<T> {
    if items.len() < cap {
        items.push(x)
    } else {
        items
    }
}

/// What `dequeue` leaves in a queue holding `items`: the head removed, if there is one.
pub open spec fn dequeue_step<T>(items: Seq<T>) -> Seq<T> {
    if items.len() > 0 {
        items.drop_first()
    } else {
        items
    }
}

/// What `dequeue` returns on a queue holding `items`: the oldest item, if there is one.
pub open spec fn head_of<T>(items: Seq<T>) -> Option<T> {
    if items.len() > 0 {
        Some(items[0])
    } else {
        None
    }
}

/// A first-in-first-out queue that never holds more than a fixed number of items.
///
/// A full queue rejects new items instead of growing, blocking or evicting.
pub struct BoundedQueue<T> {
    items: VecDeque<T>,
    capacity: usize,
}

impl<T> View for BoundedQueue<T> {
    type V = Seq<T>;

    /// The items held, oldest first.
    closed spec fn view(&self) -> Seq<T> {
        self.items@
    }
}

impl<T> BoundedQueue<T> {
    /// Well-formed: the queue holds no more than its capacity.
    pub closed spec fn wf(&self) -> bool {
        self.items@.len() <= self.capacity
    }

    /// The most items the queue may hold, fixed at construction.
    pub closed spec fn capacity_spec(&self) -> nat {
        self.capacity as nat
    }

    /// A well-formed queue holds no more items than its capacity.
    pub proof fn lemma_within_capacity(&self)
        requires
            self.wf(),
        ensures
            self@.len() <= self.capacity_spec(),
    {
    }

    /// An empty queue that will hold at most `capacity` items.
    pub fn new(capacity: usize) -> (q: Self)
        ensures
            q.wf(),
            q@ == Seq::<T>::empty(),
            q.capacity_spec() == capacity,
    {
        BoundedQueue { items: VecDeque::new(), capacity }
    }

    /// Appends `item` at the tail and returns `true` when the queue has room;
    /// otherwise leaves the queue as it was and returns `false`.
    pub fn enqueue(&mut self, item: T) -> (r: bool)
        requires
            old(self).wf(),
        ensures
            final(self).wf(),
            r == (old(self)@.len() < old(self).capacity_spec()),
            final(self)@ == enqueue_step(old(self)@, old(self).capacity_spec(), item),
            final(self).capacity_spec() == old(self).capacity_spec(),
    {
        if self.items.len() >= self.capacity {
            false
        } else {
            self.items.push_back(item);
            true
        }
    }

    /// Removes and returns the oldest item, or returns `None` when the queue is empty.
    pub fn dequeue(&mut self) -> (r: Option<T>)
        requires
            old(self).wf(),
        ensures
            final(self).wf(),
            r == head_of(old(self)@),
            final(self)@ == dequeue_step(old(self)@),
            final(self).capacity_spec() == old(self).capacity_spec(),
    {
        let r = self.items.pop_front();
        proof {
            if old(self)@.len() > 0 {
                assert(self@ =~= old(self)@.drop_first());
            }
        }
        r
    }

    /// The number of items held.
    pub fn size(&self) -> (r: usize)
        requires
            self.wf(),
        ensures
            r == self@.len(),
            r <= self.capacity_spec(),
    {
        self.items.len()
    }

    /// The most items the queue may hold.
    pub fn capacity(&self) -> (r: usize)
        ensures
            r == self.capacity_spec(),
    {
        self.capacity
    }
}

} // verus!
