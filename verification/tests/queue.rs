use rtrb::{ChunkError, PeekError, PopError, PushError, RingBuffer};

#[test]
fn push_to_full_then_pop_to_empty() {
    let (mut p, mut c) = RingBuffer::new(2).split();
    assert_eq!(p.push(1), Ok(()));
    assert_eq!(p.push(2), Ok(()));
    assert_eq!(p.push(3), Err(PushError::Full(3)));
    assert_eq!(c.pop(), Ok(1));
    assert_eq!(c.pop(), Ok(2));
    assert_eq!(c.pop(), Err(PopError::Empty));
}

#[test]
fn write_chunk_wraps_at_end_of_storage() {
    let (mut p, mut c) = RingBuffer::new(3).split();
    assert_eq!(p.push(10), Ok(()));
    assert_eq!(c.pop(), Ok(10));
    if let Ok(mut chunk) = p.write_chunk(3) {
        let (first, second) = chunk.as_mut_slices();
        assert_eq!(first.len(), 2);
        first[0] = 20;
        first[1] += 30;
        assert_eq!(second.len(), 1);
        second[0] = 40;
        chunk.commit_all();
    } else {
        unreachable!();
    }
    assert_eq!(c.pop(), Ok(20));
    assert_eq!(c.pop(), Ok(30));
    assert_eq!(c.pop(), Ok(40));
    assert_eq!(c.pop(), Err(PopError::Empty));
}

#[test]
fn peek_shows_front_and_keeps_it() {
    let (mut p, mut c) = RingBuffer::new(1).split();
    assert_eq!(c.peek(), Err(PeekError::Empty));
    assert_eq!(p.push(10), Ok(()));
    assert_eq!(c.peek(), Ok(&10));
    assert_eq!(c.peek(), Ok(&10));
    assert_eq!(p.push(11), Err(PushError::Full(11)));
    assert_eq!(c.pop(), Ok(10));
    assert_eq!(p.push(11), Ok(()));
    assert_eq!(c.pop(), Ok(11));
}

#[test]
fn read_chunk_lends_and_commits() {
    let (mut p, mut c) = RingBuffer::new(3).split();
    assert_eq!(p.push(10), Ok(()));
    assert_eq!(c.read_chunk(2).err(), Some(ChunkError::TooFewSlots(1)));
    assert_eq!(p.push(20), Ok(()));
    if let Ok(chunk) = c.read_chunk(2) {
        let (first, second) = chunk.as_slices();
        assert_eq!(first, &[10, 20]);
        assert_eq!(second, &[]);
        chunk.commit_all();
    } else {
        unreachable!();
    }
    assert_eq!(c.read_chunk(2).err(), Some(ChunkError::TooFewSlots(0)));
    assert_eq!(p.push(30), Ok(()));
    assert_eq!(p.push(40), Ok(()));
    if let Ok(chunk) = c.read_chunk(2) {
        let (first, second) = chunk.as_slices();
        assert_eq!(first, &[30]);
        assert_eq!(second, &[40]);
        chunk.commit(1);
    } else {
        unreachable!();
    };
    assert_eq!(c.pop(), Ok(40));
    assert_eq!(p.push(50), Ok(()));
    assert_eq!(p.push(60), Ok(()));
    assert_eq!(p.push(70), Ok(()));
    if let Ok(mut chunk) = c.read_chunk(3) {
        let mut v = Vec::new();
        while let Some(x) = chunk.next() {
            v.push(*x);
        }
        assert_eq!(v, vec![50, 60, 70]);
        chunk.commit_iterated();
    } else {
        unreachable!();
    }
    assert!(c.is_empty());
}

fn takes_send<E: Send>(_endpoint: &E) {}

#[test]
fn endpoints_can_move_to_another_thread() {
    let (p, c) = RingBuffer::<u32>::new(1).split();
    takes_send(&p);
    takes_send(&c);
}

#[test]
fn one_slot_passes_values_in_order() {
    let (mut p, mut c) = RingBuffer::new(1).split();
    let n = 1000u32;
    let mut next = 0;
    let mut seen = Vec::new();
    while (seen.len() as u32) < n {
        if next < n && p.push(next).is_ok() {
            next += 1;
        }
        assert_eq!(p.push(n), Err(PushError::Full(n)));
        if let Ok(x) = c.pop() {
            seen.push(x);
        }
        assert_eq!(c.pop(), Err(PopError::Empty));
    }
    let all: Vec<u32> = (0..n).collect();
    assert_eq!(seen, all);
}
