use vstd::prelude::*;

use crate::bounded_queue::{dequeue_step, enqueue_step, head_of};

verus! {

/// One operation on a bounded queue, as it takes effect under the queue's lock.
///
/// Concurrent callers of `ThreadSafeQueue` are serialized by its lock, so every run,
/// however its threads interleave, is one sequence of these operations.
pub enum QueueOp<T> {
    Enqueue(T),
    Dequeue,
}

/// The items held after running `ops`, in order, on a queue that held `items` and has
/// room for `cap` items.
pub open spec fn final_items<T>(items: Seq<T>, cap: nat, ops: Seq<QueueOp<T>>) -> Seq<T>
    decreases ops.len(),
{
    if ops.len() == 0 {
        items
    } else {
        let before = final_items(items, cap, ops.drop_last());
        match ops.last() {
            QueueOp::Enqueue(x) => enqueue_step(before, cap, x),
            QueueOp::Dequeue => dequeue_step(before),
        }
    }
}

/// The items of the enqueues in `ops` that returned `true`, in the order they ran.
pub open spec fn accepted<T>(items: Seq<T>, cap: nat, ops: Seq<QueueOp<T>>) -> Seq<T>
    decreases ops.len(),
{
    if ops.len() == 0 {
        Seq::empty()
    } else {
        let prev = accepted(items, cap, ops.drop_last());
        let before = final_items(items, cap, ops.drop_last());
        match ops.last() {
            QueueOp::Enqueue(x) => if before.len() < cap {
                prev.push(x)
            } else {
                prev
            },
            QueueOp::Dequeue => prev,
        }
    }
}

/// The items that the dequeues in `ops` returned, in the order they ran.
pub open spec fn taken<T>(items: Seq<T>, cap: nat, ops: Seq<QueueOp<T>>) -> Seq<T>
    decreases ops.len(),
{
    if ops.len() == 0 {
        Seq::empty()
    } else {
        let prev = taken(items, cap, ops.drop_last());
        let before = final_items(items, cap, ops.drop_last());
        match ops.last() {
            QueueOp::Enqueue(_) => prev,
            QueueOp::Dequeue => match head_of(before) {
                Some(x) => prev.push(x),
                None => prev,
            },
        }
    }
}

/// An enqueue of each of `xs`, in order.
pub open spec fn enqueues<T>(xs: Seq<T>) -> Seq<QueueOp<T>> {
    xs.map_values(|x: T| QueueOp::Enqueue(x))
}

/// `n` dequeues.
pub open spec fn dequeues<T>(n: nat) -> Seq<QueueOp<T>> {
    Seq::new(n, |i: int| QueueOp::Dequeue)
}

/// Whatever operations run, a queue that starts within its capacity stays within it.
pub proof fn lemma_size_within_capacity<T>(items: Seq<T>, cap: nat, ops: Seq<QueueOp<T>>)
    requires
        items.len() <= cap,
    ensures
        final_items(items, cap, ops).len() <= cap,
    decreases ops.len(),
{
    if ops.len() > 0 {
        lemma_size_within_capacity(items, cap, ops.drop_last());
    }
}

/// First in, first out, with nothing lost or duplicated: the items held at the start
/// followed by those accepted equal the items taken followed by those still held.
/// So items leave in exactly the order they came in, and an item accepted before
/// another is dequeued no later than it.
pub proof fn lemma_fifo<T>(items: Seq<T>, cap: nat, ops: Seq<QueueOp<T>>)
    ensures
        items + accepted(items, cap, ops) == taken(items, cap, ops) + final_items(
            items,
            cap,
            ops,
        ),
    decreases ops.len(),
{
    if ops.len() > 0 {
        let init = ops.drop_last();
        lemma_fifo(items, cap, init);
        let before = final_items(items, cap, init);
        match ops.last() {
            QueueOp::Enqueue(x) => {
                if before.len() < cap {
                    assert(items + accepted(items, cap, init).push(x) =~= (items + accepted(
                        items,
                        cap,
                        init,
                    )).push(x));
                    assert(taken(items, cap, init) + before.push(x) =~= (taken(items, cap, init)
                        + before).push(x));
                }
            },
            QueueOp::Dequeue => {
                if before.len() > 0 {
                    let t = taken(items, cap, init);
                    assert(t + before =~= t.push(before[0]) + before.drop_first());
                }
            },
        }
    }
}

/// Running `ops` and then `more` is running `ops + more` at once.
pub proof fn lemma_run_concat<T>(
    items: Seq<T>,
    cap: nat,
    ops: Seq<QueueOp<T>>,
    more: Seq<QueueOp<T>>,
)
    ensures
        final_items(items, cap, ops + more) == final_items(
            final_items(items, cap, ops),
            cap,
            more,
        ),
        accepted(items, cap, ops + more) == accepted(items, cap, ops) + accepted(
            final_items(items, cap, ops),
            cap,
            more,
        ),
        taken(items, cap, ops + more) == taken(items, cap, ops) + taken(
            final_items(items, cap, ops),
            cap,
            more,
        ),
    decreases more.len(),
{
    let mid = final_items(items, cap, ops);
    if more.len() == 0 {
        assert(ops + more =~= ops);
        assert(accepted(items, cap, ops) + Seq::<T>::empty() =~= accepted(items, cap, ops));
        assert(taken(items, cap, ops) + Seq::<T>::empty() =~= taken(items, cap, ops));
    } else {
        lemma_run_concat(items, cap, ops, more.drop_last());
        assert((ops + more).drop_last() =~= ops + more.drop_last());
        assert((ops + more).last() == more.last());
        let a0 = accepted(items, cap, ops);
        let a1 = accepted(mid, cap, more.drop_last());
        let t0 = taken(items, cap, ops);
        let t1 = taken(mid, cap, more.drop_last());
        match more.last() {
            QueueOp::Enqueue(x) => {
                assert(a0 + a1.push(x) =~= (a0 + a1).push(x));
            },
            QueueOp::Dequeue => {
                let before = final_items(mid, cap, more.drop_last());
                if before.len() > 0 {
                    assert(t0 + t1.push(before[0]) =~= (t0 + t1).push(before[0]));
                }
            },
        }
    }
}

/// Enqueues into a queue with room for all of them accept every item, in order.
pub proof fn lemma_enqueues_fit<T>(items: Seq<T>, cap: nat, xs: Seq<T>)
    requires
        items.len() + xs.len() <= cap,
    ensures
        accepted(items, cap, enqueues(xs)) == xs,
        taken(items, cap, enqueues(xs)) == Seq::<T>::empty(),
        final_items(items, cap, enqueues(xs)) == items + xs,
    decreases xs.len(),
{
    if xs.len() == 0 {
        assert(enqueues(xs) =~= Seq::<QueueOp<T>>::empty());
        assert(items + xs =~= items);
    } else {
        let init = xs.drop_last();
        lemma_enqueues_fit(items, cap, init);
        assert(enqueues(xs).drop_last() =~= enqueues(init));
        assert(init.push(xs.last()) =~= xs);
        assert((items + init).push(xs.last()) =~= items + xs);
    }
}

/// Enqueues into a full queue are all rejected and change nothing.
pub proof fn lemma_enqueues_when_full<T>(items: Seq<T>, cap: nat, xs: Seq<T>)
    requires
        items.len() == cap,
    ensures
        accepted(items, cap, enqueues(xs)) == Seq::<T>::empty(),
        taken(items, cap, enqueues(xs)) == Seq::<T>::empty(),
        final_items(items, cap, enqueues(xs)) == items,
    decreases xs.len(),
{
    if xs.len() > 0 {
        lemma_enqueues_when_full(items, cap, xs.drop_last());
        assert(enqueues(xs).drop_last() =~= enqueues(xs.drop_last()));
    }
}

/// With room for `cap` items, `cap + 1` enqueues into an empty queue accept the first
/// `cap`, reject the last, and leave `cap` items held.
pub proof fn lemma_capacity_boundary<T>(cap: nat, xs: Seq<T>)
    requires
        xs.len() == cap + 1,
    ensures
        final_items(Seq::<T>::empty(), cap, enqueues(xs.take(cap as int))).len() == cap,
        accepted(Seq::<T>::empty(), cap, enqueues(xs)) == xs.take(cap as int),
        final_items(Seq::<T>::empty(), cap, enqueues(xs)) == xs.take(cap as int),
{
    let empty = Seq::<T>::empty();
    let first = xs.take(cap as int);
    let last = xs.subrange(cap as int, xs.len() as int);
    lemma_enqueues_fit(empty, cap, first);
    assert(empty + first =~= first);
    lemma_enqueues_when_full(first, cap, last);
    assert(enqueues(xs) =~= enqueues(first) + enqueues(last));
    lemma_run_concat(empty, cap, enqueues(first), enqueues(last));
    assert(first + Seq::<T>::empty() =~= first);
}

/// Dequeuing at least as many times as there are items hands out every item, oldest
/// first, and leaves the queue empty; a dequeue on the empty queue returns nothing.
pub proof fn lemma_drain<T>(items: Seq<T>, cap: nat, n: nat)
    requires
        n >= items.len(),
    ensures
        taken(items, cap, dequeues(n)) == items,
        accepted(items, cap, dequeues(n)) == Seq::<T>::empty(),
        final_items(items, cap, dequeues(n)) == Seq::<T>::empty(),
        head_of(final_items(items, cap, dequeues(n))) == None::<T>,
{
    lemma_fifo(items, cap, dequeues(n));
    lemma_drain_empties(items, cap, n);
    lemma_dequeues_accept_nothing(items, cap, n);
    assert(items + Seq::<T>::empty() =~= items);
    assert(taken(items, cap, dequeues(n)) + Seq::<T>::empty() =~= taken(
        items,
        cap,
        dequeues(n),
    ));
}

proof fn lemma_dequeues_accept_nothing<T>(items: Seq<T>, cap: nat, n: nat)
    ensures
        accepted(items, cap, dequeues(n)) == Seq::<T>::empty(),
    decreases n,
{
    if n > 0 {
        lemma_dequeues_accept_nothing(items, cap, (n - 1) as nat);
        assert(dequeues::<T>(n).drop_last() =~= dequeues::<T>((n - 1) as nat));
    }
}

proof fn lemma_drain_empties<T>(items: Seq<T>, cap: nat, n: nat)
    ensures
        final_items(items, cap, dequeues(n)).len() == if n >= items.len() {
            0
        } else {
            items.len() - n
        },
    decreases n,
{
    if n > 0 {
        lemma_drain_empties(items, cap, (n - 1) as nat);
        assert(dequeues::<T>(n).drop_last() =~= dequeues::<T>((n - 1) as nat));
    }
    if n >= items.len() {
        assert(final_items(items, cap, dequeues(n)) =~= Seq::<T>::empty());
    }
}

/// On an empty queue with room for an item, enqueuing `x` and then dequeuing returns
/// exactly `x` and leaves the queue empty.
pub proof fn lemma_round_trip<T>(cap: nat, x: T)
    requires
        cap > 0,
    ensures
        taken(Seq::<T>::empty(), cap, seq![QueueOp::Enqueue(x), QueueOp::Dequeue]) == seq![x],
        final_items(Seq::<T>::empty(), cap, seq![QueueOp::Enqueue(x), QueueOp::Dequeue])
            == Seq::<T>::empty(),
{
    let empty = Seq::<T>::empty();
    let ops = seq![QueueOp::Enqueue(x), QueueOp::Dequeue];
    let first = ops.drop_last();
    assert(first =~= seq![QueueOp::Enqueue(x)]);
    assert(first.drop_last() =~= Seq::<QueueOp<T>>::empty());
    assert(first.last() == QueueOp::Enqueue(x));
    assert(ops.last() == QueueOp::<T>::Dequeue);
    assert(final_items(empty, cap, first.drop_last()) == empty);
    assert(final_items(empty, cap, first) == empty.push(x));
    assert(taken(empty, cap, first.drop_last()) == empty);
    assert(taken(empty, cap, first) == empty);
    assert(empty.push(x) =~= seq![x]);
    assert(seq![x].drop_first() =~= empty);
}

/// Enqueuing items into an empty queue with room for all of them, in whatever order the
/// lock admits the callers, and then draining it: every enqueue succeeds, every drain
/// step returns an item, and the items drained are exactly those enqueued, each once,
/// in the order they were accepted.
pub proof fn lemma_fill_then_drain<T>(cap: nat, xs: Seq<T>)
    requires
        xs.len() <= cap,
    ensures
        accepted(Seq::<T>::empty(), cap, enqueues(xs) + dequeues(xs.len())) == xs,
        taken(Seq::<T>::empty(), cap, enqueues(xs) + dequeues(xs.len())) == xs,
        final_items(Seq::<T>::empty(), cap, enqueues(xs) + dequeues(xs.len()))
            == Seq::<T>::empty(),
{
    let empty = Seq::<T>::empty();
    lemma_enqueues_fit(empty, cap, xs);
    assert(empty + xs =~= xs);
    lemma_run_concat(empty, cap, enqueues(xs), dequeues(xs.len()));
    lemma_drain(xs, cap, xs.len());
    assert(xs + Seq::<T>::empty() =~= xs);
    assert(Seq::<T>::empty() + xs =~= xs);
}

} // verus!
