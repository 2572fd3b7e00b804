use blocking_queue::{CyclicBuffer, Queue, QueueError};
use std::rc::Rc;

fn ring(capacity: usize) -> CyclicBuffer<i32> {
    CyclicBuffer::new(capacity).unwrap()
}

#[test]
fn ring_rejects_zero_capacity() {
    assert!(matches!(CyclicBuffer::<i32>::new(0), Err(QueueError::ZeroCapacity)));
}

#[test]
fn ring_starts_empty_with_its_capacity() {
    let buffer = ring(3);
    assert_eq!(buffer.capacity(), 3);
    assert_eq!(buffer.len(), 0);
    assert!(buffer.is_empty());
    assert!(!buffer.is_full());
}

#[test]
fn ring_round_trip() {
    let mut buffer = ring(3);
    buffer.push(7);
    assert_eq!(buffer.len(), 1);
    assert_eq!(buffer.pop(), 7);
    assert!(buffer.is_empty());
    assert_eq!(buffer.len(), 0);
}

#[test]
fn ring_round_trip_with_one_slot() {
    let mut buffer = ring(1);
    buffer.push(-5);
    assert!(buffer.is_full());
    assert_eq!(buffer.pop(), -5);
    assert!(buffer.is_empty());
}

#[test]
fn ring_is_first_in_first_out() {
    let mut buffer = ring(4);
    buffer.push(10);
    buffer.push(20);
    buffer.push(30);
    assert_eq!(buffer.pop(), 10);
    assert_eq!(buffer.pop(), 20);
    assert_eq!(buffer.pop(), 30);
}

#[test]
fn ring_wraps_round_the_end_of_its_storage() {
    let mut buffer = ring(3);
    buffer.push(1);
    buffer.push(2);
    buffer.push(3);
    assert!(buffer.is_full());
    assert_eq!(buffer.pop(), 1);
    buffer.push(4);
    assert!(buffer.is_full());
    assert_eq!(buffer.pop(), 2);
    assert_eq!(buffer.pop(), 3);
    buffer.push(5);
    assert_eq!(buffer.pop(), 4);
    assert_eq!(buffer.pop(), 5);
    assert!(buffer.is_empty());
}

#[test]
fn ring_keeps_order_over_many_laps() {
    let mut buffer = ring(4);
    let mut next_in = 0;
    let mut next_out = 0;
    for lap in 0..250 {
        let burst = 1 + lap % 4;
        for _ in 0..burst {
            buffer.push(next_in);
            next_in += 1;
        }
        assert_eq!(buffer.len(), burst as usize);
        for _ in 0..burst {
            assert_eq!(buffer.pop(), next_out);
            next_out += 1;
        }
        assert!(buffer.is_empty());
    }
    assert_eq!(next_out, next_in);
    assert_eq!(buffer.capacity(), 4);
}

#[test]
fn ring_size_is_pushes_less_pops() {
    let mut buffer = ring(5);
    let mut pushes = 0;
    let mut pops = 0;
    for step in 0..40 {
        if step % 3 == 2 {
            buffer.pop();
            pops += 1;
        } else if !buffer.is_full() {
            buffer.push(step);
            pushes += 1;
        }
        assert_eq!(buffer.len(), pushes - pops);
        assert!(buffer.len() <= buffer.capacity());
    }
}

#[test]
fn ring_is_full_exactly_at_capacity() {
    let mut buffer = ring(2);
    assert!(!buffer.is_full());
    buffer.push(1);
    assert!(!buffer.is_full());
    assert!(!buffer.is_empty());
    buffer.push(2);
    assert!(buffer.is_full());
    assert_eq!(buffer.len(), 2);
}

#[test]
fn ring_try_push_reports_a_full_buffer_and_leaves_it() {
    let mut buffer = ring(2);
    assert_eq!(buffer.try_push(1), Ok(()));
    assert_eq!(buffer.try_push(2), Ok(()));
    assert_eq!(buffer.try_push(3), Err(QueueError::Full));
    assert_eq!(buffer.len(), 2);
    assert_eq!(buffer.pop(), 1);
    assert_eq!(buffer.pop(), 2);
}

#[test]
fn ring_try_pop_reports_an_empty_buffer_and_leaves_it() {
    let mut buffer = ring(2);
    assert_eq!(buffer.try_pop(), Err(QueueError::Empty));
    assert_eq!(buffer.len(), 0);
    buffer.push(9);
    assert_eq!(buffer.try_pop(), Ok(9));
    assert_eq!(buffer.try_pop(), Err(QueueError::Empty));
    assert_eq!(buffer.try_push(8), Ok(()));
    assert_eq!(buffer.pop(), 8);
}

#[test]
fn ring_pop_hands_ownership_to_the_caller() {
    let mut buffer: CyclicBuffer<Rc<i32>> = CyclicBuffer::new(2).unwrap();
    let value = Rc::new(5);
    buffer.push(Rc::clone(&value));
    assert_eq!(Rc::strong_count(&value), 2);
    let out = buffer.pop();
    assert!(Rc::ptr_eq(&out, &value));
    assert_eq!(Rc::strong_count(&value), 2);
    drop(out);
    assert_eq!(Rc::strong_count(&value), 1);
}

#[test]
fn ring_push_overwrites_the_placeholder_in_its_slot() {
    let mut buffer: CyclicBuffer<String> = CyclicBuffer::new(2).unwrap();
    buffer.push(String::from("a"));
    buffer.push(String::from("b"));
    assert_eq!(buffer.pop(), "a");
    buffer.push(String::from("c"));
    assert_eq!(buffer.pop(), "b");
    assert_eq!(buffer.pop(), "c");
    assert_eq!(buffer.len(), 0);
}

#[test]
fn ring_clone_holds_the_same_elements_and_stands_alone() {
    let mut buffer = ring(3);
    buffer.push(1);
    buffer.push(2);
    buffer.pop();
    buffer.push(3);
    let mut copy = buffer.clone();
    assert_eq!(copy.capacity(), 3);
    assert_eq!(copy.len(), 2);
    copy.push(4);
    assert_eq!(buffer.len(), 2);
    assert_eq!(copy.pop(), 2);
    assert_eq!(copy.pop(), 3);
    assert_eq!(copy.pop(), 4);
    assert_eq!(buffer.pop(), 2);
    assert_eq!(buffer.pop(), 3);
    assert!(buffer.is_empty());
}

#[test]
fn ring_works_through_the_queue_trait() {
    fn cycle<Q: Queue<i32>>(queue: &mut Q) -> i32 {
        queue.push(11);
        queue.push(12);
        queue.pop()
    }
    let mut buffer = ring(2);
    assert_eq!(cycle(&mut buffer), 11);
    assert_eq!(buffer.len(), 1);
}

#[test]
fn ring_full_buffer_takes_a_push_only_after_a_pop() {
    let mut buffer = ring(2);
    buffer.push(1);
    buffer.push(2);
    assert_eq!(buffer.try_push(3), Err(QueueError::Full));
    assert_eq!(buffer.try_push(3), Err(QueueError::Full));
    assert_eq!(buffer.pop(), 1);
    assert_eq!(buffer.try_push(3), Ok(()));
    assert_eq!(buffer.pop(), 2);
    assert_eq!(buffer.pop(), 3);
}

#[test]
fn ring_empty_buffer_gives_a_pop_only_after_a_push() {
    let mut buffer = ring(2);
    assert_eq!(buffer.try_pop(), Err(QueueError::Empty));
    assert_eq!(buffer.try_pop(), Err(QueueError::Empty));
    buffer.push(6);
    assert_eq!(buffer.try_pop(), Ok(6));
    assert!(buffer.is_empty());
}
