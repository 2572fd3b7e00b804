use blocking_queue::{BlockingQueue, QueueError};
use std::sync::Arc;

fn queue(capacity: usize) -> BlockingQueue<i32> {
    BlockingQueue::new(capacity).unwrap()
}

#[test]
fn blocking_rejects_zero_capacity() {
    assert!(matches!(BlockingQueue::<i32>::new(0), Err(QueueError::ZeroCapacity)));
}

#[test]
fn blocking_accepts_capacity_one_and_more() {
    assert!(BlockingQueue::<i32>::new(1).is_ok());
    assert!(BlockingQueue::<i32>::new(20).is_ok());
}

#[test]
fn blocking_starts_empty() {
    assert_eq!(queue(4).len(), Ok(0));
}

#[test]
fn blocking_round_trip() {
    for capacity in 1..=8 {
        let shared = queue(capacity);
        assert_eq!(shared.push(42), Ok(()));
        assert_eq!(shared.pop(), Ok(42));
        assert_eq!(shared.len(), Ok(0));
    }
}

#[test]
fn blocking_capacity_one_alternating() {
    let shared = queue(1);
    let mut seen = Vec::new();
    for value in [1, 2, 3] {
        shared.push(value).unwrap();
        seen.push(shared.pop().unwrap());
    }
    assert_eq!(seen, vec![1, 2, 3]);
    assert_eq!(shared.len(), Ok(0));
}

#[test]
fn blocking_capacity_twenty_one_to_hundred() {
    let shared = queue(20);
    let mut next = 1;
    let mut seen = Vec::new();
    while seen.len() < 100 {
        while next <= 100 && shared.len().unwrap() < 20 {
            shared.push(next).unwrap();
            next += 1;
        }
        assert!(shared.len().unwrap() <= 20);
        for _ in 0..7 {
            if shared.len().unwrap() > 0 {
                seen.push(shared.pop().unwrap());
            }
        }
    }
    let expected: Vec<i32> = (1..=100).collect();
    assert_eq!(seen, expected);
    assert_eq!(shared.len(), Ok(0));
}

#[test]
fn blocking_fills_to_capacity_without_waiting() {
    let shared = queue(3);
    shared.push(1).unwrap();
    shared.push(2).unwrap();
    shared.push(3).unwrap();
    assert_eq!(shared.len(), Ok(3));
    assert_eq!(shared.pop(), Ok(1));
    shared.push(4).unwrap();
    assert_eq!(shared.pop(), Ok(2));
    assert_eq!(shared.pop(), Ok(3));
    assert_eq!(shared.pop(), Ok(4));
    assert_eq!(shared.len(), Ok(0));
}

#[test]
fn blocking_loses_and_repeats_nothing() {
    let shared = queue(5);
    let mut pushed = Vec::new();
    let mut popped = Vec::new();
    let mut value = 0;
    for round in 0..60 {
        let room = 5 - shared.len().unwrap();
        for _ in 0..(round % (room + 1)) {
            shared.push(value % 7).unwrap();
            pushed.push(value % 7);
            value += 1;
        }
        let held = shared.len().unwrap();
        for _ in 0..(round % (held + 1)) {
            popped.push(shared.pop().unwrap());
        }
        assert_eq!(shared.len().unwrap(), pushed.len() - popped.len());
    }
    while shared.len().unwrap() > 0 {
        popped.push(shared.pop().unwrap());
    }
    assert_eq!(popped, pushed);
    pushed.sort();
    popped.sort();
    assert_eq!(popped, pushed);
}

#[test]
fn blocking_handles_share_one_queue() {
    let first = Arc::new(queue(2));
    let second = Arc::clone(&first);
    first.push(5).unwrap();
    second.push(6).unwrap();
    assert_eq!(first.len(), Ok(2));
    assert_eq!(second.pop(), Ok(5));
    assert_eq!(first.pop(), Ok(6));
    assert_eq!(second.len(), Ok(0));
}

#[test]
fn blocking_moves_owned_values() {
    let shared: BlockingQueue<String> = BlockingQueue::new(2).unwrap();
    shared.push(String::from("first")).unwrap();
    shared.push(String::from("second")).unwrap();
    assert_eq!(shared.pop().unwrap(), "first");
    assert_eq!(shared.pop().unwrap(), "second");
}
