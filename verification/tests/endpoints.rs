use rtrb::{ChunkError, PeekError, PopError, PushError, RingBuffer};

#[test]
fn queue_without_slots_is_full_and_empty() {
    let (mut p, mut c) = RingBuffer::new(0).split();
    assert_eq!(p.buffer().capacity(), 0);
    assert!(p.is_full());
    assert!(c.is_empty());
    assert_eq!(p.slots(), 0);
    assert_eq!(c.slots(), 0);
    assert_eq!(p.push(1), Err(PushError::Full(1)));
    assert_eq!(p.push(2), Err(PushError::Full(2)));
    assert_eq!(c.pop(), Err(PopError::Empty));
    assert_eq!(c.peek(), Err(PeekError::Empty));
    assert_eq!(p.write_chunk(1).err(), Some(ChunkError::TooFewSlots(0)));
    assert_eq!(c.read_chunk(1).err(), Some(ChunkError::TooFewSlots(0)));
    assert!(p.write_chunk(0).is_ok());
    assert!(c.read_chunk(0).is_ok());
}

#[test]
fn capacity_is_what_was_asked_for() {
    let ring = RingBuffer::<u32>::new(100);
    assert_eq!(ring.capacity(), 100);
    let (p, c) = ring.split();
    assert_eq!(p.buffer().capacity(), 100);
    assert_eq!(c.buffer().capacity(), 100);
}

#[test]
fn fresh_queue_is_all_free() {
    let (mut p, mut c) = RingBuffer::<u32>::new(1024).split();
    assert_eq!(p.slots(), 1024);
    assert_eq!(c.slots(), 0);
    assert!(!p.is_full());
    assert!(c.is_empty());
}

#[test]
fn tests_and_counts_agree() {
    let (mut p, mut c) = RingBuffer::new(2).split();
    for round in 0..7 {
        assert_eq!(c.is_empty(), c.slots() == 0);
        assert_eq!(p.is_full(), p.slots() == 0);
        assert_eq!(p.push(round), Ok(()));
        assert_eq!(c.is_empty(), c.slots() == 0);
        assert_eq!(p.is_full(), p.slots() == 0);
        if round % 2 == 1 {
            assert_eq!(c.pop(), Ok(round - 1));
            assert_eq!(c.pop(), Ok(round));
            assert!(c.is_empty());
            assert_eq!(c.slots(), 0);
        }
    }
}

#[test]
fn counts_add_up_to_the_capacity() {
    let capacity = 5;
    let (mut p, mut c) = RingBuffer::new(capacity).split();
    let mut next = 0u32;
    for round in 0..40 {
        if round % 3 != 2 {
            if p.push(next).is_ok() {
                next += 1;
            }
        } else {
            let _ = c.pop();
        }
        assert_eq!(p.slots() + c.slots(), capacity);
    }
}

#[test]
fn stale_counts_stay_below_the_capacity() {
    let (mut p, mut c) = RingBuffer::new(4).split();
    assert_eq!(p.push(1), Ok(()));
    assert_eq!(p.push(2), Ok(()));
    let filled = c.slots();
    assert_eq!(filled, 2);
    assert_eq!(c.pop(), Ok(1));
    // The producer has not looked at `head` since: it still counts the
    // popped slot as filled when it tests for room.
    assert!(!p.is_full());
    assert_eq!(p.push(3), Ok(()));
    assert_eq!(p.push(4), Ok(()));
    assert_eq!(p.slots(), 1);
    assert_eq!(c.slots(), 3);
}

#[test]
fn full_queue_gives_the_value_back() {
    let (mut p, _c) = RingBuffer::new(1).split();
    assert_eq!(p.push(String::from("kept")), Ok(()));
    match p.push(String::from("returned")) {
        Err(PushError::Full(value)) => assert_eq!(value, "returned"),
        Ok(()) => unreachable!(),
    }
}

#[test]
fn values_come_out_in_the_order_they_went_in() {
    for capacity in 1..6usize {
        let (mut p, mut c) = RingBuffer::new(capacity).split();
        let mut pushed = Vec::new();
        let mut popped = Vec::new();
        let mut next = 0u32;
        // A fixed, uneven pattern of pushes and pops.
        for step in 0..200u32 {
            if (step * 7 + step / 3) % 5 < 3 {
                if p.push(next).is_ok() {
                    pushed.push(next);
                }
                next += 1;
            } else if let Ok(value) = c.pop() {
                popped.push(value);
            }
            assert!(popped.len() <= pushed.len());
            assert_eq!(popped[..], pushed[..popped.len()]);
            assert_eq!(c.slots(), pushed.len() - popped.len());
        }
        while let Ok(value) = c.pop() {
            popped.push(value);
        }
        assert_eq!(popped, pushed);
    }
}

#[test]
fn round_trip_returns_what_was_pushed() {
    let capacity = 6;
    for len in 0..=capacity {
        let (mut p, mut c) = RingBuffer::new(capacity).split();
        // Start somewhere in the middle of the positions.
        for _ in 0..4 {
            assert_eq!(p.push(0), Ok(()));
            assert_eq!(c.pop(), Ok(0));
        }
        let values: Vec<u32> = (0..len as u32).map(|i| i * i + 1).collect();
        for v in &values {
            assert_eq!(p.push(*v), Ok(()));
        }
        let mut out = Vec::new();
        for _ in 0..len {
            out.push(c.pop().unwrap());
        }
        assert_eq!(out, values);
        assert_eq!(c.pop(), Err(PopError::Empty));
    }
}

#[test]
fn positions_run_through_the_doubled_range() {
    let (mut p, mut c) = RingBuffer::new(3).split();
    for i in 0..20u32 {
        assert_eq!(p.push(i), Ok(()));
        assert_eq!(p.push(i + 100), Ok(()));
        assert_eq!(c.pop(), Ok(i));
        assert_eq!(c.pop(), Ok(i + 100));
        assert_eq!(c.pop(), Err(PopError::Empty));
        assert_eq!(p.slots(), 3);
    }
}

#[test]
fn repeated_peek_shows_the_same_element() {
    let (mut p, mut c) = RingBuffer::new(2).split();
    assert_eq!(p.push(10), Ok(()));
    assert_eq!(p.push(20), Ok(()));
    let first = *c.peek().unwrap();
    let second = *c.peek().unwrap();
    assert_eq!(first, 10);
    assert_eq!(second, 10);
    assert_eq!(c.slots(), 2);
    assert_eq!(p.slots(), 0);
    assert_eq!(c.pop(), Ok(10));
    assert_eq!(c.peek(), Ok(&20));
    assert_eq!(c.pop(), Ok(20));
    assert_eq!(c.peek(), Err(PeekError::Empty));
}

#[test]
fn refresh_takes_only_positions_on_the_way() {
    let (mut p, mut c) = RingBuffer::new(2).split();
    assert_eq!(p.push(1), Ok(()));
    assert_eq!(p.push(2), Ok(()));
    assert_eq!(p.slots(), 0);
    // Not a position of this queue.
    p.refresh_head(4);
    assert_eq!(p.slots(), 0);
    // Beyond `tail`.
    p.refresh_head(3);
    assert_eq!(p.slots(), 0);
    assert_eq!(c.slots(), 2);
    // Not a position of this queue.
    c.refresh_tail(7);
    assert_eq!(c.slots(), 2);
    // More than the queue can hold.
    c.refresh_tail(3);
    assert_eq!(c.slots(), 2);
    assert_eq!(c.pop(), Ok(1));
    // On the way from the copy of `head` to `tail`.
    p.refresh_head(1);
    assert!(!p.is_full());
    assert_eq!(p.push(3), Ok(()));
    assert_eq!(c.pop(), Ok(2));
    assert_eq!(c.pop(), Ok(3));
}

#[test]
fn receive_stages_what_the_indices_show() {
    let (mut p, mut c) = RingBuffer::new(2).split();
    // Nothing in the queue: nothing is staged.
    assert!(!c.receive(Some(5)));
    assert!(!c.receive(None));
    assert_eq!(c.pop(), Err(PopError::Empty));
    assert_eq!(p.push(1), Ok(()));
    assert_eq!(c.peek(), Ok(&1));
    // One element shown and one staged: no room for another.
    assert!(!c.receive(Some(5)));
    assert_eq!(c.pop(), Ok(1));
}

#[test]
fn both_endpoints_own_the_same_queue() {
    let (mut p, mut c) = RingBuffer::new(2).split();
    assert!(std::ptr::eq(p.buffer(), c.buffer()));
    assert_eq!(p.push(7), Ok(()));
    assert_eq!(c.pop(), Ok(7));
    // The queue lives on while one endpoint does.
    drop(c);
    assert_eq!(p.buffer().capacity(), 2);
    assert_eq!(p.push(8), Ok(()));
    assert_eq!(p.push(9), Ok(()));
    assert_eq!(p.push(10), Err(PushError::Full(10)));
}
