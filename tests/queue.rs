use invisible_queue::bounded_queue::BoundedQueue;
use invisible_queue::thread_safe_queue::ThreadSafeQueue;
use std::sync::Arc;

#[test]
fn capacity_two_scenario() {
    let q = ThreadSafeQueue::<String>::new(2);
    assert!(q.enqueue("a".to_string()));
    assert_eq!(q.size(), 1);
    assert!(q.enqueue("b".to_string()));
    assert_eq!(q.size(), 2);
    assert!(!q.enqueue("c".to_string()));
    assert_eq!(q.size(), 2);
    assert_eq!(q.dequeue(), Some("a".to_string()));
    assert_eq!(q.size(), 1);
    assert_eq!(q.dequeue(), Some("b".to_string()));
    assert_eq!(q.size(), 0);
    assert_eq!(q.dequeue(), None);
}

#[test]
fn bounded_queue_scenario() {
    let mut q = BoundedQueue::<String>::new(2);
    assert!(q.enqueue("a".to_string()));
    assert!(q.enqueue("b".to_string()));
    assert!(!q.enqueue("c".to_string()));
    assert_eq!(q.size(), 2);
    assert_eq!(q.dequeue(), Some("a".to_string()));
    assert_eq!(q.dequeue(), Some("b".to_string()));
    assert_eq!(q.dequeue(), None);
    assert_eq!(q.size(), 0);
}

#[test]
fn capacity_boundary_rejects_extra_item() {
    let n: usize = 5;
    let q = ThreadSafeQueue::<u32>::new(n);
    for i in 0..n {
        assert!(q.enqueue(i as u32));
    }
    assert!(!q.enqueue(99));
    assert_eq!(q.size(), n);
    for i in 0..n {
        assert_eq!(q.dequeue(), Some(i as u32));
    }
}

#[test]
fn zero_capacity_rejects_everything() {
    let q = ThreadSafeQueue::<String>::new(0);
    assert_eq!(q.capacity(), 0);
    assert!(!q.enqueue("x".to_string()));
    assert_eq!(q.size(), 0);
    assert_eq!(q.dequeue(), None);

    let mut b = BoundedQueue::<u8>::new(0);
    assert!(!b.enqueue(1));
    assert_eq!(b.dequeue(), None);
    assert_eq!(b.size(), 0);
}

#[test]
fn fresh_queue_is_empty() {
    let q = ThreadSafeQueue::<String>::new(3);
    assert_eq!(q.size(), 0);
    assert_eq!(q.dequeue(), None);
    assert_eq!(q.capacity(), 3);
}

#[test]
fn drained_queue_is_empty() {
    let q = ThreadSafeQueue::<u32>::new(3);
    assert!(q.enqueue(1));
    assert!(q.enqueue(2));
    assert_eq!(q.dequeue(), Some(1));
    assert_eq!(q.dequeue(), Some(2));
    assert_eq!(q.dequeue(), None);
    assert_eq!(q.dequeue(), None);
    assert_eq!(q.size(), 0);
}

#[test]
fn round_trip_returns_same_item() {
    let q = ThreadSafeQueue::<String>::new(1);
    let item = "hello world".to_string();
    assert!(q.enqueue(item.clone()));
    assert_eq!(q.dequeue(), Some(item));
    assert_eq!(q.size(), 0);
}

#[test]
fn room_frees_after_dequeue() {
    let mut q = BoundedQueue::<u32>::new(1);
    assert_eq!(q.capacity(), 1);
    assert!(q.enqueue(7));
    assert!(!q.enqueue(8));
    assert_eq!(q.dequeue(), Some(7));
    assert!(q.enqueue(9));
    assert_eq!(q.dequeue(), Some(9));
}

#[test]
fn fifo_order_with_interleaved_calls() {
    let q = ThreadSafeQueue::<u32>::new(3);
    assert!(q.enqueue(1));
    assert!(q.enqueue(2));
    assert_eq!(q.dequeue(), Some(1));
    assert!(q.enqueue(3));
    assert!(q.enqueue(4));
    assert!(!q.enqueue(5));
    assert_eq!(q.dequeue(), Some(2));
    assert_eq!(q.dequeue(), Some(3));
    assert_eq!(q.dequeue(), Some(4));
    assert_eq!(q.dequeue(), None);
}

/// Producer `p` of `producers` puts items `p * per + i`; the calls interleave round robin,
/// as a lock may serialize them.
fn interleaved_producers(q: &ThreadSafeQueue<usize>, producers: usize, per: usize) -> usize {
    let mut ok: usize = 0;
    for i in 0..per {
        for p in 0..producers {
            if q.enqueue(p * per + i) {
                ok += 1;
            }
        }
    }
    ok
}

#[test]
fn interleaved_producers_lose_nothing() {
    let producers: usize = 4;
    let per_producer: usize = 250;
    let q = Arc::new(ThreadSafeQueue::<usize>::new(producers * per_producer));
    let shared = Arc::clone(&q);
    let accepted = interleaved_producers(&shared, producers, per_producer);
    assert_eq!(accepted, producers * per_producer);
    assert_eq!(q.size(), producers * per_producer);

    let mut drained = Vec::new();
    while let Some(x) = q.dequeue() {
        drained.push(x);
    }
    assert_eq!(drained.len(), producers * per_producer);
    let mut sorted = drained.clone();
    sorted.sort();
    let expected: Vec<usize> = (0..producers * per_producer).collect();
    assert_eq!(sorted, expected);
    for p in 0..producers {
        let mine: Vec<usize> = drained
            .iter()
            .copied()
            .filter(|x| x / per_producer == p)
            .collect();
        let in_order: Vec<usize> = (p * per_producer..(p + 1) * per_producer).collect();
        assert_eq!(mine, in_order);
    }
    assert_eq!(q.size(), 0);
}

#[test]
fn interleaved_producers_beyond_capacity() {
    let q = ThreadSafeQueue::<usize>::new(10);
    let accepted = interleaved_producers(&q, 3, 5);
    assert_eq!(accepted, 10);
    assert_eq!(q.size(), 10);
    let mut drained = Vec::new();
    while let Some(x) = q.dequeue() {
        drained.push(x);
    }
    assert_eq!(drained, vec![0, 5, 10, 1, 6, 11, 2, 7, 12, 3]);
}

#[test]
fn mixed_calls_stay_within_capacity() {
    let cap: usize = 8;
    let q = ThreadSafeQueue::<usize>::new(cap);
    let mut net: i64 = 0;
    for i in 0..2000usize {
        if i % 3 == 0 {
            if q.dequeue().is_some() {
                net -= 1;
            }
        } else if q.enqueue(i) {
            net += 1;
        }
        assert!(q.size() <= cap);
    }
    assert_eq!(net, q.size() as i64);
    assert_eq!(q.size(), cap);
}
